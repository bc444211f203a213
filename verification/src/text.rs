//! The few string operations that matching and labelling need.

use vstd::prelude::*;

verus! {

/// What `str::to_lowercase` makes of a string.
pub uninterp spec fn lowercase(s: Seq<char>) -> Seq<char>;

/// `str::to_lowercase`: the lowercase equivalent of `s` by the Unicode rules,
/// which depends on the characters of `s` alone. What those rules do to a given
/// character is not stated.
pub assume_specification[ str::to_lowercase ](s: &str) -> (r: String)
    ensures
        r@ == lowercase(s@),
;

/// The part of `s` behind its last dot, or all of `s` where it has none.
pub open spec fn tail(s: Seq<char>) -> Seq<char>
    decreases s.len(),
{
    if s.len() == 0 || s.last() == '.' {
        Seq::empty()
    } else {
        tail(s.drop_last()).push(s.last())
    }
}

/// The tail is the one suffix without a dot that is either the whole string or
/// follows a dot.
pub proof fn tail_is_dotless_suffix(s: Seq<char>, start: int)
    requires
        0 <= start <= s.len(),
        start == 0 || s[start - 1] == '.',
        forall|i: int| start <= i < s.len() ==> s[i] != '.',
    ensures
        tail(s) == s.skip(start),
    decreases s.len(),
{
    if start < s.len() {
        tail_is_dotless_suffix(s.drop_last(), start);
        assert(s.skip(start) =~= s.drop_last().skip(start).push(s.last()));
    } else {
        assert(s.skip(start) =~= Seq::empty());
    }
}

/// The part of `s` behind its last dot.
pub fn last_component(s: &str) -> (r: &str)
    ensures
        r@ == tail(s@),
{
    let len: usize = s.unicode_len();
    let mut start: usize = 0;
    let mut n: usize = 0;
    for c in it: s.chars()
        invariant
            it.seq() == s@,
            n == it.index(),
            len == s@.len(),
            start <= n <= len,
            start == 0 || s@[start - 1] == '.',
            forall|i: int| start <= i < n ==> s@[i] != '.',
    {
        n = n + 1;
        if c == '.' {
            start = n;
        }
    }
    proof {
        tail_is_dotless_suffix(s@, start as int);
        assert(s@.subrange(start as int, len as int) =~= s@.skip(start as int));
    }
    s.substring_char(start, len)
}

/// The character of a decimal digit.
pub open spec fn digit_char(d: nat) -> char {
    ('0' as nat + d) as char
}

/// `n` in decimal notation, without leading zeros.
pub open spec fn decimal(n: nat) -> Seq<char>
    decreases n,
{
    if n < 10 {
        seq![digit_char(n)]
    } else {
        decimal(n / 10).push(digit_char(n % 10))
    }
}

fn digit(d: u64) -> (r: &'static str)
    requires
        d < 10,
    ensures
        r@ == seq![digit_char(d as nat)],
{
    proof {
        reveal_strlit("0");
        reveal_strlit("1");
        reveal_strlit("2");
        reveal_strlit("3");
        reveal_strlit("4");
        reveal_strlit("5");
        reveal_strlit("6");
        reveal_strlit("7");
        reveal_strlit("8");
        reveal_strlit("9");
    }
    match d {
        0 => "0",
        1 => "1",
        2 => "2",
        3 => "3",
        4 => "4",
        5 => "5",
        6 => "6",
        7 => "7",
        8 => "8",
        _ => "9",
    }
}

/// `n` in decimal notation.
pub fn to_decimal(n: u64) -> (r: String)
    ensures
        r@ == decimal(n as nat),
    decreases n,
{
    if n < 10 {
        digit(n).to_owned()
    } else {
        to_decimal(n / 10).concat(digit(n % 10))
    }
}

/// `c` is what stands behind the last dot of `s`, or `s` itself where it has
/// no dot.
pub open spec fn last_part(s: Seq<char>, c: Seq<char>) -> bool {
    &&& forall|i: int| 0 <= i < c.len() ==> c[i] != '.'
    &&& s == c || exists|a: Seq<char>| s == #[trigger] (a + seq!['.']) + c
}

/// Every string has one last part, and the tail is it.
pub proof fn tail_is_last_part(s: Seq<char>, c: Seq<char>)
    ensures
        last_part(s, c) <==> c == tail(s),
{
    tail_has_no_dot(s);
    let start = s.len() - tail(s).len();
    if start > 0 {
        let a = s.take(start - 1);
        assert(s =~= (a + seq!['.']) + tail(s));
    } else {
        assert(s =~= tail(s));
    }
    if last_part(s, c) {
        if s == c {
            tail_is_dotless_suffix(s, 0);
            assert(s.skip(0) =~= s);
        } else {
            let a = choose|a: Seq<char>| s == #[trigger] (a + seq!['.']) + c;
            let n = a.len() + 1;
            assert(s[n - 1] == '.');
            assert forall|i: int| n <= i < s.len() implies s[i] != '.' by {
                assert(s[i] == c[i - n]);
            }
            tail_is_dotless_suffix(s, n as int);
            assert(s.skip(n as int) =~= c);
        }
    }
}

proof fn tail_has_no_dot(s: Seq<char>)
    ensures
        tail(s).len() <= s.len(),
        tail(s) == s.skip(s.len() - tail(s).len()),
        forall|i: int| 0 <= i < tail(s).len() ==> tail(s)[i] != '.',
        tail(s).len() < s.len() ==> s[s.len() - tail(s).len() - 1] == '.',
    decreases s.len(),
{
    if s.len() == 0 || s.last() == '.' {
        assert(s.skip(s.len() as int) =~= tail(s));
    } else {
        let before = s.drop_last();
        tail_has_no_dot(before);
        assert(tail(s) =~= s.skip(s.len() - tail(s).len()));
    }
}

/// The number that a string of decimal digits stands for.
pub open spec fn number(s: Seq<char>) -> int
    decreases s.len(),
{
    if s.len() == 0 {
        0
    } else {
        10 * number(s.drop_last()) + (s.last() as int - '0' as int)
    }
}

/// Decimal notation consists of digits, stands for the number that was written,
/// and has no leading zero unless it is zero itself.
pub proof fn decimal_reads_back(n: nat)
    ensures
        number(decimal(n)) == n,
        decimal(n).len() > 0,
        forall|i: int| 0 <= i < decimal(n).len() ==> '0' <= #[trigger] decimal(n)[i] <= '9',
        n > 0 ==> decimal(n)[0] != '0',
        n == 0 ==> decimal(n) == seq!['0'],
    decreases n,
{
    if n < 10 {
        assert(decimal(n).drop_last() =~= Seq::empty());
        assert(number(Seq::<char>::empty()) == 0);
    } else {
        decimal_reads_back(n / 10);
        assert(decimal(n).drop_last() =~= decimal(n / 10));
    }
}

} // verus!
