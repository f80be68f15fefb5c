//! The pieces of text handling that the sensors are read with: white space, lines, words and
//! substrings, each stated over a sequence of characters.
use vstd::prelude::*;

verus! {

/// A character with the Unicode `White_Space` property.
pub open spec fn is_space(c: char) -> bool {
    let n = c as int;
    ||| 0x09 <= n <= 0x0d
    ||| n == 0x20
    ||| n == 0x85
    ||| n == 0xa0
    ||| n == 0x1680
    ||| 0x2000 <= n <= 0x200a
    ||| n == 0x2028
    ||| n == 0x2029
    ||| n == 0x202f
    ||| n == 0x205f
    ||| n == 0x3000
}

/// Whether `c` is white space.
pub fn space(c: char) -> (r: bool)
    ensures
        r == is_space(c),
{
    let n: u32 = c as u32;
    (0x09 <= n && n <= 0x0d) || n == 0x20 || n == 0x85 || n == 0xa0 || n == 0x1680 || (0x2000 <= n
        && n <= 0x200a) || n == 0x2028 || n == 0x2029 || n == 0x202f || n == 0x205f || n == 0x3000
}

/// `s` without the white space it begins with.
pub open spec fn without_leading(s: Seq<char>) -> Seq<char>
    decreases s.len(),
{
    if s.len() > 0 && is_space(s.first()) {
        without_leading(s.drop_first())
    } else {
        s
    }
}

/// `s` without the white space it ends with.
pub open spec fn without_trailing(s: Seq<char>) -> Seq<char>
    decreases s.len(),
{
    if s.len() > 0 && is_space(s.last()) {
        without_trailing(s.drop_last())
    } else {
        s
    }
}

/// `s` without the white space at either end.
pub open spec fn trimmed(s: Seq<char>) -> Seq<char> {
    without_trailing(without_leading(s))
}

/// The characters of `s`.
pub fn characters(s: &str) -> (r: Vec<char>)
    ensures
        r@ == s@,
{
    let mut r: Vec<char> = Vec::new();
    for c in it: s.chars()
        invariant
            it.seq() == s@,
            r@ == it.seq().take(it.index() as int),
    {
        r.push(c);
    }
    r
}

/// The text without the white space at either end.
pub fn trim<'a>(s: &'a str) -> (r: &'a str)
    ensures
        r@ == trimmed(s@),
{
    let v = characters(s);
    let mut from: usize = 0;
    assert(s@.skip(0) =~= s@);
    while from < v.len() && space(v[from])
        invariant
            from <= v.len(),
            v@ == s@,
            without_leading(s@) == without_leading(s@.skip(from as int)),
        decreases v.len() - from,
    {
        assert(s@.skip(from as int).drop_first() =~= s@.skip(from + 1));
        from = from + 1;
    }
    let mut to: usize = v.len();
    let ghost t = s@.skip(from as int);
    assert(t.take(to - from) =~= t);
    while to > from && space(v[to - 1])
        invariant
            from <= to <= v.len(),
            v@ == s@,
            t == s@.skip(from as int),
            without_trailing(t) == without_trailing(t.take(to - from)),
        decreases to,
    {
        assert(t.take(to - from).drop_last() =~= t.take(to - from - 1));
        to = to - 1;
    }
    assert(t.take(to - from) =~= s@.subrange(from as int, to as int));
    s.substring_char(from, to)
}

/// `t` occurs in `s`.
pub open spec fn occurs(s: Seq<char>, t: Seq<char>) -> bool {
    exists|i: int| 0 <= i <= s.len() - t.len() && #[trigger] s.subrange(i, i + t.len()) == t
}

fn occurs_at(v: &Vec<char>, w: &Vec<char>, at: usize) -> (r: bool)
    requires
        at + w.len() <= v.len(),
    ensures
        r == (v@.subrange(at as int, at + w@.len()) == w@),
{
    let mut i: usize = 0;
    while i < w.len()
        invariant
            at + w.len() <= v.len(),
            i <= w.len(),
            forall|j: int| 0 <= j < i ==> v@[at + j] == w@[j],
        decreases w.len() - i,
    {
        if v[at + i] != w[i] {
            assert(v@.subrange(at as int, at + w@.len())[i as int] != w@[i as int]);
            return false;
        }
        i = i + 1;
    }
    assert(v@.subrange(at as int, at + w@.len()) =~= w@);
    true
}

/// Whether `t` occurs in `s`.
pub fn contains(s: &str, t: &str) -> (r: bool)
    ensures
        r == occurs(s@, t@),
{
    let v = characters(s);
    let w = characters(t);
    if w.len() > v.len() {
        return false;
    }
    let mut i: usize = 0;
    while i <= v.len() - w.len()
        invariant
            v@ == s@,
            w@ == t@,
            w.len() <= v.len(),
            i <= v.len() - w.len() + 1,
            forall|j: int| 0 <= j < i ==> #[trigger] s@.subrange(j, j + t@.len()) != t@,
        decreases v.len() - w.len() + 1 - i,
    {
        if occurs_at(&v, &w, i) {
            return true;
        }
        if i == v.len() - w.len() {
            return false;
        }
        i = i + 1;
    }
    false
}

/// What follows `p` in `s`, if `s` begins with `p`.
pub open spec fn after_prefix(s: Seq<char>, p: Seq<char>) -> Option<Seq<char>> {
    if p.is_prefix_of(s) {
        Some(s.skip(p.len() as int))
    } else {
        None
    }
}

/// What follows `p` in `s`, if `s` begins with `p`.
pub fn strip_prefix<'a>(s: &'a str, p: &str) -> (r: Option<&'a str>)
    ensures
        r is Some <==> after_prefix(s@, p@) is Some,
        r matches Some(t) ==> after_prefix(s@, p@) == Some(t@),
{
    let v = characters(s);
    let w = characters(p);
    if w.len() <= v.len() && occurs_at(&v, &w, 0) {
        assert(s@.skip(p@.len() as int) =~= s@.subrange(p@.len() as int, s@.len() as int));
        Some(s.substring_char(w.len(), v.len()))
    } else {
        None
    }
}

/// Whether `s` begins with `p`.
pub fn starts_with(s: &str, p: &str) -> (r: bool)
    ensures
        r == p@.is_prefix_of(s@),
{
    let v = characters(s);
    let w = characters(p);
    w.len() <= v.len() && occurs_at(&v, &w, 0)
}

/// Whether the two texts are the same.
pub fn same(s: &str, t: &str) -> (r: bool)
    ensures
        r == (s@ == t@),
{
    let v = characters(s);
    let w = characters(t);
    if w.len() == v.len() && occurs_at(&v, &w, 0) {
        assert(v@.subrange(0, w@.len() as int) =~= v@);
        true
    } else {
        assert(v@.subrange(0, v@.len() as int) =~= v@);
        false
    }
}

/// The length of the run of characters other than white space that `s` begins with.
pub open spec fn word_length(s: Seq<char>) -> nat
    decreases s.len(),
{
    if s.len() > 0 && !is_space(s.first()) {
        1 + word_length(s.drop_first())
    } else {
        0
    }
}

proof fn lemma_without_leading_length(s: Seq<char>)
    ensures
        without_leading(s).len() <= s.len(),
        without_leading(s).len() > 0 ==> !is_space(without_leading(s).first()),
    decreases s.len(),
{
    if s.len() > 0 && is_space(s.first()) {
        lemma_without_leading_length(s.drop_first());
    }
}

proof fn lemma_word_length(s: Seq<char>)
    ensures
        word_length(s) <= s.len(),
    decreases s.len(),
{
    if s.len() > 0 && !is_space(s.first()) {
        lemma_word_length(s.drop_first());
    }
}

/// The words of `s`: its longest runs of characters other than white space, in order.
pub open spec fn words_of(s: Seq<char>) -> Seq<Seq<char>>
    decreases s.len(),
    via words_of_decreases
{
    let t = without_leading(s);
    if t.len() == 0 {
        Seq::empty()
    } else {
        let k = word_length(t) as int;
        seq![t.take(k)] + words_of(t.skip(k))
    }
}

#[via_fn]
proof fn words_of_decreases(s: Seq<char>) {
    lemma_without_leading_length(s);
    lemma_word_length(without_leading(s));
}

/// The words of the text, in order.
pub fn words(s: &str) -> (r: Vec<String>)
    ensures
        r.deep_view() == words_of(s@),
{
    let v = characters(s);
    let mut r: Vec<String> = Vec::new();
    let mut i: usize = 0;
    assert(s@.skip(0) =~= s@);
    assert(r.deep_view() =~= Seq::empty());
    assert(r.deep_view() + words_of(s@) =~= words_of(s@));
    loop
        invariant_except_break
            i <= v.len(),
            v@ == s@,
            words_of(s@) == r.deep_view() + words_of(s@.skip(i as int)),
        ensures
            words_of(s@) == r.deep_view(),
        decreases v.len() - i,
    {
        let ghost start = i;
        let ghost at = s@.skip(i as int);
        let ghost before = r.deep_view();
        while i < v.len() && space(v[i])
            invariant
                start <= i <= v.len(),
                v@ == s@,
                without_leading(at) == without_leading(s@.skip(i as int)),
            decreases v.len() - i,
        {
            assert(s@.skip(i as int).drop_first() =~= s@.skip(i + 1));
            i = i + 1;
        }
        let ghost t = s@.skip(i as int);
        assert(without_leading(at) == t);
        if i == v.len() {
            assert(words_of(at) =~= Seq::empty());
            assert(before + words_of(at) =~= before);
            break;
        }
        let from = i;
        assert(t.skip(0) =~= t);
        while i < v.len() && !space(v[i])
            invariant
                from <= i <= v.len(),
                v@ == s@,
                t == s@.skip(from as int),
                word_length(t) == i - from + word_length(s@.skip(i as int)),
            decreases v.len() - i,
        {
            assert(s@.skip(i as int).drop_first() =~= s@.skip(i + 1));
            i = i + 1;
        }
        assert(word_length(t) == i - from);
        r.push(s.substring_char(from, i).to_owned());
        proof {
            let k = word_length(t) as int;
            assert(t.skip(k) =~= s@.skip(i as int));
            assert(t.take(k) =~= s@.subrange(from as int, i as int));
            assert(r.deep_view() =~= before.push(t.take(k)));
            assert(before + (seq![t.take(k)] + words_of(t.skip(k))) =~= before.push(t.take(k))
                + words_of(t.skip(k)));
        }
    }
    r
}

/// The number of characters of `s` before its first line feed, or its length.
pub open spec fn line_length(s: Seq<char>) -> nat
    decreases s.len(),
{
    if s.len() > 0 && s.first() != '\n' {
        1 + line_length(s.drop_first())
    } else {
        0
    }
}

proof fn lemma_line_length(s: Seq<char>)
    ensures
        line_length(s) <= s.len(),
        line_length(s) < s.len() ==> s[line_length(s) as int] == '\n',
        forall|i: int| 0 <= i < line_length(s) ==> s[i] != '\n',
    decreases s.len(),
{
    if s.len() > 0 && s.first() != '\n' {
        lemma_line_length(s.drop_first());
        assert forall|i: int| 0 <= i < line_length(s) implies s[i] != '\n' by {
            if i > 0 {
                assert(s.drop_first()[i - 1] == s[i]);
            }
        }
    }
}

/// `s` without one carriage return at its end.
pub open spec fn without_return(s: Seq<char>) -> Seq<char> {
    if s.len() > 0 && s.last() == '\r' {
        s.drop_last()
    } else {
        s
    }
}

/// The lines of `s`. A line ends with a line feed, or with a carriage return and a line feed;
/// the last line may lack its ending.
pub open spec fn lines_of(s: Seq<char>) -> Seq<Seq<char>>
    decreases s.len(),
    via lines_of_decreases
{
    let k = line_length(s) as int;
    if s.len() == 0 {
        Seq::empty()
    } else if k == s.len() {
        seq![s]
    } else {
        seq![without_return(s.take(k))] + lines_of(s.skip(k + 1))
    }
}

#[via_fn]
proof fn lines_of_decreases(s: Seq<char>) {
    lemma_line_length(s);
}

/// The lines of the text, in order.
pub fn lines(s: &str) -> (r: Vec<String>)
    ensures
        r.deep_view() == lines_of(s@),
{
    let v = characters(s);
    let mut r: Vec<String> = Vec::new();
    let mut from: usize = 0;
    assert(s@.skip(0) =~= s@);
    assert(r.deep_view() =~= Seq::empty());
    assert(r.deep_view() + lines_of(s@) =~= lines_of(s@));
    while from < v.len()
        invariant
            from <= v.len(),
            v@ == s@,
            lines_of(s@) == r.deep_view() + lines_of(s@.skip(from as int)),
        decreases v.len() - from,
    {
        let ghost t = s@.skip(from as int);
        let ghost before = r.deep_view();
        let mut to: usize = from;
        while to < v.len() && v[to] != '\n'
            invariant
                from <= to <= v.len(),
                v@ == s@,
                t == s@.skip(from as int),
                line_length(t) == to - from + line_length(s@.skip(to as int)),
            decreases v.len() - to,
        {
            assert(s@.skip(to as int).drop_first() =~= s@.skip(to + 1));
            to = to + 1;
        }
        assert(line_length(t) == to - from);
        if to == v.len() {
            assert(s@.subrange(from as int, to as int) =~= t);
            r.push(s.substring_char(from, to).to_owned());
            from = to;
            proof {
                assert(r.deep_view() =~= before.push(t));
                assert(s@.skip(from as int) =~= Seq::empty());
                assert(before + seq![t] =~= before.push(t) + lines_of(Seq::empty()));
            }
        } else {
            let end: usize = if to > from && v[to - 1] == '\r' {
                to - 1
            } else {
                to
            };
            r.push(s.substring_char(from, end).to_owned());
            proof {
                let k = to - from;
                assert(s@.subrange(from as int, end as int) =~= without_return(t.take(k)));
                assert(r.deep_view() =~= before.push(without_return(t.take(k))));
                assert(t.skip(k + 1) =~= s@.skip(to + 1));
                assert(before + (seq![without_return(t.take(k))] + lines_of(t.skip(k + 1)))
                    =~= before.push(without_return(t.take(k))) + lines_of(t.skip(k + 1)));
            }
            from = to + 1;
        }
    }
    assert(s@.skip(from as int) =~= Seq::empty());
    assert(r.deep_view() + lines_of(Seq::empty()) =~= r.deep_view());
    r
}

/// The first line of the text, if it has one.
pub fn first_line<'a>(s: &'a str) -> (r: Option<&'a str>)
    ensures
        match r {
            Some(line) => lines_of(s@).len() > 0 && lines_of(s@)[0] == line@,
            None => lines_of(s@).len() == 0,
        },
{
    let v = characters(s);
    if v.len() == 0 {
        return None;
    }
    let mut to: usize = 0;
    assert(s@.skip(0) =~= s@);
    while to < v.len() && v[to] != '\n'
        invariant
            to <= v.len(),
            v@ == s@,
            line_length(s@) == to + line_length(s@.skip(to as int)),
        decreases v.len() - to,
    {
        assert(s@.skip(to as int).drop_first() =~= s@.skip(to + 1));
        to = to + 1;
    }
    let end: usize = if to < v.len() && to > 0 && v[to - 1] == '\r' {
        to - 1
    } else {
        to
    };
    proof {
        let k = to as int;
        assert(line_length(s@) == k);
        if to < v.len() {
            assert(s@.subrange(0, end as int) =~= without_return(s@.take(k)));
        } else {
            assert(s@.subrange(0, end as int) =~= s@);
        }
    }
    Some(s.substring_char(0, end))
}

/// What trimming leaves is a stretch of the text with nothing but white space around it, and does
/// not begin or end with white space.
pub proof fn trimmed_is_the_middle(s: Seq<char>)
    ensures
        exists|i: int, j: int|
            0 <= i <= j <= s.len() && trimmed(s) == #[trigger] s.subrange(i, j) && (forall|k: int|
                0 <= k < i || j <= k < s.len() ==> is_space(#[trigger] s[k])),
        trimmed(s).len() > 0 ==> !is_space(trimmed(s).first()) && !is_space(trimmed(s).last()),
{
    let t = without_leading(s);
    let i = lemma_leading(s);
    let n = lemma_trailing(t);
    assert(trimmed(s) =~= s.subrange(i, i + n));
    assert forall|k: int| 0 <= k < i || i + n <= k < s.len() implies is_space(#[trigger] s[k]) by {
        if k >= i + n {
            assert(t[k - i] == s[k]);
        }
    }
    lemma_without_leading_length(s);
    if trimmed(s).len() > 0 {
        assert(trimmed(s).first() == t.first());
    }
}

proof fn lemma_leading(s: Seq<char>) -> (i: int)
    ensures
        0 <= i <= s.len(),
        without_leading(s) == s.skip(i),
        forall|k: int| 0 <= k < i ==> is_space(#[trigger] s[k]),
    decreases s.len(),
{
    if s.len() > 0 && is_space(s.first()) {
        let i = lemma_leading(s.drop_first());
        assert(s.drop_first().skip(i) =~= s.skip(i + 1));
        assert forall|k: int| 0 <= k < i + 1 implies is_space(#[trigger] s[k]) by {
            if k > 0 {
                assert(s.drop_first()[k - 1] == s[k]);
            }
        }
        i + 1
    } else {
        assert(s.skip(0) =~= s);
        0
    }
}

proof fn lemma_trailing(s: Seq<char>) -> (n: int)
    ensures
        0 <= n <= s.len(),
        without_trailing(s) == s.take(n),
        n > 0 ==> !is_space(s[n - 1]),
        forall|k: int| n <= k < s.len() ==> is_space(#[trigger] s[k]),
    decreases s.len(),
{
    if s.len() > 0 && is_space(s.last()) {
        let n = lemma_trailing(s.drop_last());
        assert(s.drop_last().take(n) =~= s.take(n));
        assert forall|k: int| n <= k < s.len() implies is_space(#[trigger] s[k]) by {
            if k < s.len() - 1 {
                assert(s.drop_last()[k] == s[k]);
            }
        }
        n
    } else {
        assert(s.take(s.len() as int) =~= s);
        s.len() as int
    }
}

/// A word has at least one character, and no white space.
pub proof fn words_have_no_space(s: Seq<char>)
    ensures
        forall|i: int, k: int|
            0 <= i < words_of(s).len() && 0 <= k < words_of(s)[i].len() ==> !is_space(
                #[trigger] words_of(s)[i][k],
            ),
        forall|i: int| 0 <= i < words_of(s).len() ==> (#[trigger] words_of(s)[i]).len() > 0,
    decreases s.len(),
{
    let t = without_leading(s);
    lemma_without_leading_length(s);
    if t.len() > 0 {
        let n = word_length(t) as int;
        let word = t.take(n);
        let rest = t.skip(n);
        lemma_word_length(t);
        lemma_word_characters(t);
        words_have_no_space(rest);
        assert(words_of(s) == seq![word] + words_of(rest));
        assert forall|i: int, k: int|
            0 <= i < words_of(s).len() && 0 <= k < words_of(s)[i].len() implies !is_space(
            #[trigger] words_of(s)[i][k],
        ) by {
            if i > 0 {
                assert(words_of(s)[i] == words_of(rest)[i - 1]);
            }
        }
        assert forall|i: int| 0 <= i < words_of(s).len() implies (
        #[trigger] words_of(s)[i]).len() > 0 by {
            if i > 0 {
                assert(words_of(s)[i] == words_of(rest)[i - 1]);
            }
        }
    }
}

proof fn lemma_word_characters(s: Seq<char>)
    ensures
        forall|k: int| 0 <= k < word_length(s) ==> !is_space(#[trigger] s[k]),
    decreases s.len(),
{
    if s.len() > 0 && !is_space(s.first()) {
        lemma_word_characters(s.drop_first());
        lemma_word_length(s);
        assert forall|k: int| 0 <= k < word_length(s) implies !is_space(#[trigger] s[k]) by {
            if k > 0 {
                assert(s.drop_first()[k - 1] == s[k]);
            }
        }
    }
}

/// No line has a line feed in it.
pub proof fn lines_have_no_feed(s: Seq<char>)
    ensures
        forall|i: int, k: int|
            0 <= i < lines_of(s).len() && 0 <= k < lines_of(s)[i].len() ==> (
            #[trigger] lines_of(s)[i][k]) != '\n',
    decreases s.len(),
{
    let n = line_length(s) as int;
    lemma_line_length(s);
    if s.len() > 0 && n < s.len() {
        let rest = s.skip(n + 1);
        lines_have_no_feed(rest);
        assert(lines_of(s) == seq![without_return(s.take(n))] + lines_of(rest));
        assert forall|i: int, k: int|
            0 <= i < lines_of(s).len() && 0 <= k < lines_of(s)[i].len() implies (
        #[trigger] lines_of(s)[i][k]) != '\n' by {
            if i > 0 {
                assert(lines_of(s)[i] == lines_of(rest)[i - 1]);
            } else {
                assert(lines_of(s)[0][k] == s[k]);
            }
        }
    }
}

/// White space is these characters and no others.
pub proof fn white_space(c: char, r: bool)
    ensures
        call_ensures(space, (c,), r) ==> r == is_space(c),
        is_space(c) <==> {
            ||| c == '\t' || c == '\n' || c == '\u{b}' || c == '\u{c}' || c == '\r' || c == ' '
            ||| c == '\u{85}' || c == '\u{a0}' || c == '\u{1680}'
            ||| c == '\u{2000}' || c == '\u{2001}' || c == '\u{2002}' || c == '\u{2003}'
            ||| c == '\u{2004}' || c == '\u{2005}' || c == '\u{2006}' || c == '\u{2007}'
            ||| c == '\u{2008}' || c == '\u{2009}' || c == '\u{200a}'
            ||| c == '\u{2028}' || c == '\u{2029}' || c == '\u{202f}' || c == '\u{205f}'
            ||| c == '\u{3000}'
        },
{
}

/// Every character of `s` is white space.
spec fn all_space(s: Seq<char>) -> bool {
    forall|i: int| 0 <= i < s.len() ==> is_space(#[trigger] s[i])
}

proof fn lemma_leading_space(lead: Seq<char>, s: Seq<char>)
    requires
        all_space(lead),
    ensures
        without_leading(lead + s) == without_leading(s),
    decreases lead.len(),
{
    if lead.len() > 0 {
        assert(is_space(lead[0]));
        assert((lead + s).drop_first() =~= lead.drop_first() + s);
        lemma_leading_space(lead.drop_first(), s);
    } else {
        assert(lead + s =~= s);
    }
}

proof fn lemma_trailing_space(s: Seq<char>, trail: Seq<char>)
    requires
        all_space(trail),
    ensures
        without_trailing(s + trail) == without_trailing(s),
    decreases trail.len(),
{
    if trail.len() > 0 {
        assert(is_space(trail[trail.len() - 1]));
        assert((s + trail).drop_last() =~= s + trail.drop_last());
        lemma_trailing_space(s, trail.drop_last());
    } else {
        assert(s + trail =~= s);
    }
}

/// Trimming takes the white space around a text away and nothing else.
pub proof fn trimmed_of_its_surroundings(lead: Seq<char>, s: Seq<char>, trail: Seq<char>)
    requires
        forall|i: int| 0 <= i < lead.len() ==> is_space(#[trigger] lead[i]),
        forall|i: int| 0 <= i < trail.len() ==> is_space(#[trigger] trail[i]),
        s.len() > 0 ==> !is_space(s.first()) && !is_space(s.last()),
    ensures
        trimmed(lead + s + trail) == s,
{
    assert(lead + s + trail =~= lead + (s + trail));
    lemma_leading_space(lead, s + trail);
    if s.len() > 0 {
        assert((s + trail).first() == s.first());
        lemma_trailing_space(s, trail);
    } else {
        lemma_leading_space(trail, Seq::empty());
        assert(trail + Seq::<char>::empty() =~= trail);
        assert(s + trail =~= trail);
        assert(s =~= Seq::empty());
    }
}

/// A text occurs in another where the other is the text with something before and behind it.
pub proof fn occurs_with_something_around(s: Seq<char>, t: Seq<char>)
    ensures
        occurs(s, t) <==> exists|a: Seq<char>, b: Seq<char>| s == #[trigger] (a + t + b),
{
    if occurs(s, t) {
        let i = choose|i: int|
            0 <= i <= s.len() - t.len() && #[trigger] s.subrange(i, i + t.len()) == t;
        assert(s =~= s.take(i) + t + s.skip(i + t.len()));
    }
    if exists|a: Seq<char>, b: Seq<char>| s == #[trigger] (a + t + b) {
        let (a, b) = choose|a: Seq<char>, b: Seq<char>| s == #[trigger] (a + t + b);
        assert(s.subrange(a.len() as int, (a.len() + t.len()) as int) =~= t);
    }
}

/// What follows a beginning is what has to be put behind it to have the text again; where nothing
/// can be, the text does not begin so.
pub proof fn after_prefix_is_the_rest(s: Seq<char>, p: Seq<char>)
    ensures
        forall|rest: Seq<char>| (after_prefix(s, p) == Some(rest)) == (s == #[trigger] (p + rest)),
        after_prefix(s, p) is None <==> forall|rest: Seq<char>| s != #[trigger] (p + rest),
{
    assert forall|rest: Seq<char>| (after_prefix(s, p) == Some(rest)) == (s == #[trigger] (p
        + rest)) by {
        if s == p + rest {
            assert(s.skip(p.len() as int) =~= rest);
        }
        if after_prefix(s, p) == Some(rest) {
            assert(s =~= p + rest);
        }
    }
    if after_prefix(s, p) is Some {
        assert(s == p + after_prefix(s, p)->0);
    }
}

/// A text that begins with white space, a word and more behind it has that word and then the words
/// of the rest; a text of white space has none.
pub proof fn words_in_turn(lead: Seq<char>, word: Seq<char>, rest: Seq<char>)
    requires
        forall|i: int| 0 <= i < lead.len() ==> is_space(#[trigger] lead[i]),
        word.len() > 0,
        forall|i: int| 0 <= i < word.len() ==> !is_space(#[trigger] word[i]),
        rest.len() > 0 ==> is_space(rest.first()),
    ensures
        words_of(lead) == Seq::<Seq<char>>::empty(),
        words_of(lead + word + rest) == seq![word] + words_of(rest),
{
    let t = word + rest;
    lemma_leading_space(lead, Seq::empty());
    assert(lead + Seq::<char>::empty() =~= lead);
    assert(lead + word + rest =~= lead + t);
    lemma_leading_space(lead, t);
    assert(t.first() == word[0]);
    lemma_word_length_of(word, rest);
    assert(t.take(word.len() as int) =~= word);
    assert(t.skip(word.len() as int) =~= rest);
}

proof fn lemma_word_length_of(word: Seq<char>, rest: Seq<char>)
    requires
        forall|i: int| 0 <= i < word.len() ==> !is_space(#[trigger] word[i]),
        rest.len() > 0 ==> is_space(rest.first()),
    ensures
        word_length(word + rest) == word.len(),
    decreases word.len(),
{
    if word.len() > 0 {
        assert(!is_space(word[0]));
        assert((word + rest).drop_first() =~= word.drop_first() + rest);
        lemma_word_length_of(word.drop_first(), rest);
    } else {
        assert(word + rest =~= rest);
    }
}

proof fn lemma_line_length_of(line: Seq<char>, rest: Seq<char>)
    requires
        forall|i: int| 0 <= i < line.len() ==> #[trigger] line[i] != '\n',
        rest.len() > 0 ==> rest.first() == '\n',
    ensures
        line_length(line + rest) == line.len(),
    decreases line.len(),
{
    if line.len() > 0 {
        assert(line[0] != '\n');
        assert((line + rest).drop_first() =~= line.drop_first() + rest);
        lemma_line_length_of(line.drop_first(), rest);
    } else {
        assert(line + rest =~= rest);
    }
}

proof fn lemma_line_in_front(line: Seq<char>, rest: Seq<char>)
    requires
        forall|i: int| 0 <= i < line.len() ==> #[trigger] line[i] != '\n',
    ensures
        lines_of(line.push('\n') + rest) == seq![without_return(line)] + lines_of(rest),
{
    let s = line.push('\n') + rest;
    let behind = seq!['\n'] + rest;
    assert(s =~= line + behind);
    lemma_line_length_of(line, behind);
    assert(s.take(line.len() as int) =~= line);
    assert(s.skip(line.len() as int + 1) =~= rest);
}

/// A text without a line feed is one line, and none if it is empty. A line in front of a text, ended
/// by a line feed or by a carriage return and a line feed, comes before the lines of the text.
pub proof fn lines_in_turn(line: Seq<char>, rest: Seq<char>)
    requires
        forall|i: int| 0 <= i < line.len() ==> #[trigger] line[i] != '\n',
    ensures
        lines_of(line) == (if line.len() == 0 {
            Seq::empty()
        } else {
            seq![line]
        }),
        line.len() == 0 || line.last() != '\r' ==> lines_of(line.push('\n') + rest) == seq![line]
            + lines_of(rest),
        lines_of(line.push('\r').push('\n') + rest) == seq![line] + lines_of(rest),
{
    lemma_line_length_of(line, Seq::empty());
    assert(line + Seq::<char>::empty() =~= line);
    lemma_line_in_front(line, rest);
    lemma_line_in_front(line.push('\r'), rest);
    assert(line.push('\r').drop_last() =~= line);
}

} // verus!
