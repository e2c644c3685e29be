//! Decimal text: the digits of integers as they travel in headers, cursors
//! and configuration values.

use vstd::prelude::*;

verus! {

/// An ASCII decimal digit.
pub open spec fn is_digit(c: char) -> bool {
    '0' <= c && c <= '9'
}

pub open spec fn digit_value(c: char) -> int {
    (c as int) - ('0' as int)
}

pub open spec fn all_digits(s: Seq<char>) -> bool {
    forall|i: int| 0 <= i < s.len() ==> is_digit(#[trigger] s[i])
}

/// The number that a string of digits denotes.
pub open spec fn digits_value(s: Seq<char>) -> int
    decreases s.len(),
{
    if s.len() == 0 {
        0
    } else {
        digits_value(s.drop_last()) * 10 + digit_value(s.last())
    }
}

/// Unsigned decimal text as Rust's integer parsers read it: an optional
/// `+`, then at least one digit.
pub open spec fn unsigned_text_value(s: Seq<char>) -> Option<int> {
    if s.len() > 0 && s[0] == '+' {
        if s.len() > 1 && all_digits(s.drop_first()) {
            Some(digits_value(s.drop_first()))
        } else {
            None
        }
    } else if s.len() > 0 && all_digits(s) {
        Some(digits_value(s))
    } else {
        None
    }
}

/// Signed decimal text as Rust's integer parsers read it: an optional `+`
/// or `-`, then at least one digit.
pub open spec fn signed_text_value(s: Seq<char>) -> Option<int> {
    if s.len() > 0 && s[0] == '-' {
        if s.len() > 1 && all_digits(s.drop_first()) {
            Some(-digits_value(s.drop_first()))
        } else {
            None
        }
    } else {
        unsigned_text_value(s)
    }
}

/// The shortest decimal digits of `n`.
pub open spec fn decimal_digits(n: nat) -> Seq<char>
    decreases n,
{
    if n < 10 {
        seq![(('0' as nat) + n) as char]
    } else {
        decimal_digits(n / 10).push((('0' as nat) + n % 10) as char)
    }
}

/// Decimal digits read back as the number they were written from.
pub proof fn law_decimal_round_trip(n: nat)
    ensures
        all_digits(decimal_digits(n)),
        decimal_digits(n).len() > 0,
        digits_value(decimal_digits(n)) == n,
        unsigned_text_value(decimal_digits(n)) == Some(n as int),
    decreases n,
{
    let s = decimal_digits(n);
    if n < 10 {
        let c = (('0' as nat) + n) as char;
        assert(s == seq![c]);
        assert(c as int == ('0' as int) + n);
        assert(s.drop_last() =~= Seq::<char>::empty());
        assert(digits_value(s) == digits_value(s.drop_last()) * 10 + digit_value(c));
    } else {
        law_decimal_round_trip(n / 10);
        let p = decimal_digits(n / 10);
        let c = (('0' as nat) + n % 10) as char;
        assert(s == p.push(c));
        assert(s.drop_last() =~= p);
        assert(c as int == ('0' as int) + n % 10);
        assert(digits_value(s) == digits_value(p) * 10 + digit_value(c));
        assert((n / 10) * 10 + n % 10 == n);
        assert forall|i: int| 0 <= i < s.len() implies is_digit(#[trigger] s[i]) by {
            if i < p.len() {
                assert(s[i] == p[i]);
            }
        }
    }
    assert(s[0] != '+');
}

proof fn lemma_digits_value_grows(s: Seq<char>, c: char)
    requires
        is_digit(c),
    ensures
        digits_value(s.push(c)) == digits_value(s) * 10 + digit_value(c),
        digits_value(s) >= 0 ==> digits_value(s.push(c)) >= digits_value(s),
{
    assert(s.push(c).drop_last() =~= s);
}

/// Reads the digits of `s` from position `start` to the end, as a number no
/// larger than `bound`.
fn read_digits(s: &str, start: usize, bound: u64) -> (r: Option<u64>)
    requires
        start <= s@.len(),
    ensures
        r is Some <==> (start < s@.len() && all_digits(s@.skip(start as int)) && digits_value(
            s@.skip(start as int),
        ) <= bound),
        r matches Some(v) ==> v == digits_value(s@.skip(start as int)),
{
    let n = s.unicode_len();
    if start >= n {
        return None;
    }
    let mut acc: u64 = 0;
    let mut i: usize = start;
    while i < n
        invariant
            start <= i <= n,
            n == s@.len(),
            all_digits(s@.subrange(start as int, i as int)),
            acc == digits_value(s@.subrange(start as int, i as int)),
            acc <= bound,
        decreases n - i,
    {
        let c = s.get_char(i);
        if !('0' <= c && c <= '9') {
            proof {
                let t = s@.skip(start as int);
                assert(t[i - start] == c);
            }
            return None;
        }
        let d = (c as u64) - ('0' as u64);
        proof {
            let p = s@.subrange(start as int, i as int);
            assert(s@.subrange(start as int, i + 1) =~= p.push(c));
            lemma_digits_value_grows(p, c);
        }
        if d > bound || acc > (bound - d) / 10 {
            assert(acc * 10 + d > bound) by (nonlinear_arith)
                requires
                    d > bound || acc > (bound - d) / 10,
                    d <= 9,
            ;
            proof {
                let t = s@.skip(start as int);
                let p = s@.subrange(start as int, i as int);
                assert(t.subrange(0, i - start + 1) =~= p.push(c));
                if all_digits(t) {
                    lemma_prefix_bounds_value(t, (i - start) as int);
                }
            }
            return None;
        }
        acc = acc * 10 + d;
        i = i + 1;
    }
    assert(s@.subrange(start as int, n as int) =~= s@.skip(start as int));
    Some(acc)
}

/// Reads unsigned decimal text, accepting values up to `bound`.
pub fn parse_unsigned(s: &str, bound: u64) -> (r: Option<u64>)
    ensures
        r is Some <==> (unsigned_text_value(s@) is Some && unsigned_text_value(s@)->0 <= bound),
        r matches Some(v) ==> unsigned_text_value(s@) == Some(v as int),
{
    let n = s.unicode_len();
    if n > 0 && s.get_char(0) == '+' {
        assert(s@.skip(1) =~= s@.drop_first());
        if n == 1 {
            return None;
        }
        read_digits(s, 1, bound)
    } else {
        assert(s@.skip(0) =~= s@);
        read_digits(s, 0, bound)
    }
}

/// Reads a signed 32-bit integer the way `str::parse::<i32>` does.
pub fn parse_i32(s: &str) -> (r: Option<i32>)
    ensures
        r is Some <==> (signed_text_value(s@) matches Some(v) && i32::MIN <= v <= i32::MAX),
        r matches Some(v) ==> signed_text_value(s@) == Some(v as int),
{
    let n = s.unicode_len();
    if n > 0 && s.get_char(0) == '-' {
        assert(s@.skip(1) =~= s@.drop_first());
        if n == 1 {
            return None;
        }
        match read_digits(s, 1, 2147483648) {
            Some(v) => Some((0 - (v as i64)) as i32),
            None => None,
        }
    } else {
        match parse_unsigned(s, 2147483647) {
            Some(v) => Some(v as i32),
            None => None,
        }
    }
}

/// The text of one decimal digit.
fn digit_text(d: u64) -> (r: &'static str)
    requires
        d < 10,
    ensures
        r@ == seq![(('0' as nat) + d) as char],
{
    proof {
        reveal_strlit("0");
        reveal_strlit("1");
        reveal_strlit("2");
        reveal_strlit("3");
        reveal_strlit("4");
        reveal_strlit("5");
        reveal_strlit("6");
        reveal_strlit("7");
        reveal_strlit("8");
        reveal_strlit("9");
    }
    match d {
        0 => "0",
        1 => "1",
        2 => "2",
        3 => "3",
        4 => "4",
        5 => "5",
        6 => "6",
        7 => "7",
        8 => "8",
        _ => "9",
    }
}

/// The shortest decimal digits of `n`, without sign.
pub fn decimal_text(n: u64) -> (r: String)
    ensures
        r@ == decimal_digits(n as nat),
    decreases n,
{
    if n < 10 {
        String::from_str(digit_text(n))
    } else {
        let mut s = decimal_text(n / 10);
        let d = digit_text(n % 10);
        s.append(d);
        assert(s@ =~= decimal_digits((n / 10) as nat).push((('0' as nat) + (n % 10) as nat) as char));
        s
    }
}

/// The value of a prefix of a digit string is no larger than the value of
/// the whole string.
proof fn lemma_prefix_bounds_value(t: Seq<char>, k: int)
    requires
        0 <= k < t.len(),
        all_digits(t),
    ensures
        digits_value(t.subrange(0, k + 1)) <= digits_value(t),
    decreases t.len() - k,
{
    if k + 1 < t.len() {
        lemma_prefix_bounds_value(t, k + 1);
        let p = t.subrange(0, k + 1);
        let c = t[k + 1];
        assert(t.subrange(0, k + 2) =~= p.push(c));
        lemma_digits_nonneg(p);
        lemma_digits_value_grows(p, c);
    } else {
        assert(t.subrange(0, k + 1) =~= t);
    }
}

proof fn lemma_digits_nonneg(s: Seq<char>)
    requires
        all_digits(s),
    ensures
        digits_value(s) >= 0,
    decreases s.len(),
{
    if s.len() > 0 {
        lemma_digits_nonneg(s.drop_last());
    }
}

} // verus!
