//! Decimal numerals: writing them and reading them.
use vstd::prelude::*;

use crate::text::chars_of;

verus! {

/// The digit for `d`.
pub open spec fn digit(d: int) -> char {
    (48 + d) as char
}

/// The decimal numeral of `n`, without leading zeros.
pub open spec fn decimal(n: nat) -> Seq<char>
    decreases n,
{
    if n < 10 {
        seq![digit(n as int)]
    } else {
        decimal(n / 10).push(digit((n % 10) as int))
    }
}

fn digit_text(d: u64) -> (r: &'static str)
    requires
        d < 10,
    ensures
        r@ == seq![digit(d as int)],
{
    proof {
        reveal_strlit("0");
        reveal_strlit("1");
        reveal_strlit("2");
        reveal_strlit("3");
        reveal_strlit("4");
        reveal_strlit("5");
        reveal_strlit("6");
        reveal_strlit("7");
        reveal_strlit("8");
        reveal_strlit("9");
    }
    let r = match d {
        0 => "0",
        1 => "1",
        2 => "2",
        3 => "3",
        4 => "4",
        5 => "5",
        6 => "6",
        7 => "7",
        8 => "8",
        _ => "9",
    };
    assert(r@ =~= seq![digit(d as int)]);
    r
}

/// The decimal numeral of `n`.
pub fn decimal_text(n: u64) -> (r: String)
    ensures
        r@ == decimal(n as nat),
    decreases n,
{
    if n < 10 {
        digit_text(n).to_owned()
    } else {
        let mut r = decimal_text(n / 10);
        let ghost front = r@;
        r.append(digit_text(n % 10));
        assert(r@ =~= front.push(digit((n % 10) as int)));
        r
    }
}

/// `prefix` followed by the decimal numeral of `n`.
pub fn numbered(prefix: &str, n: u64) -> (r: String)
    ensures
        r@ == prefix@ + decimal(n as nat),
{
    let mut r = prefix.to_owned();
    r.append(decimal_text(n).as_str());
    r
}

/// `c` is one of `0` to `9`.
pub open spec fn is_digit(c: char) -> bool {
    '0' <= c <= '9'
}

/// Every character is a digit.
pub open spec fn all_digits(s: Seq<char>) -> bool {
    forall|i: int| 0 <= i < s.len() ==> is_digit(#[trigger] s[i])
}

/// The number that the digits of `s` write.
pub open spec fn digits_value(s: Seq<char>) -> nat
    decreases s.len(),
{
    if s.len() == 0 {
        0
    } else {
        (digits_value(s.drop_last()) * 10 + ((s.last() as int) - 48)) as nat
    }
}

/// `s` without one plus sign at its front.
pub open spec fn without_plus(s: Seq<char>) -> Seq<char> {
    if s.len() > 0 && s[0] == '+' {
        s.drop_first()
    } else {
        s
    }
}

/// What `s` reads as, as a number of at most `max`: an optional plus sign, then
/// one digit or more and nothing else.
pub open spec fn read_unsigned(s: Seq<char>, max: int) -> Option<int> {
    let d = without_plus(s);
    if d.len() > 0 && all_digits(d) && digits_value(d) <= max {
        Some(digits_value(d) as int)
    } else {
        None
    }
}

proof fn lemma_digits_value_grows(s: Seq<char>, i: int)
    requires
        all_digits(s),
        0 <= i <= s.len(),
    ensures
        digits_value(s.subrange(0, i)) <= digits_value(s),
    decreases s.len(),
{
    if i == s.len() {
        assert(s.subrange(0, i) =~= s);
    } else {
        assert forall|j: int| 0 <= j < s.drop_last().len() implies is_digit(
            #[trigger] s.drop_last()[j],
        ) by {
            assert(is_digit(s[j]));
        }
        lemma_digits_value_grows(s.drop_last(), i);
        assert(s.drop_last().subrange(0, i) =~= s.subrange(0, i));
        assert(is_digit(s[s.len() - 1]));
    }
}

fn digit_value(c: char) -> (r: Option<u64>)
    ensures
        r == if is_digit(c) {
            Some(((c as int) - 48) as u64)
        } else {
            None
        },
{
    let n: u32 = c as u32;
    if 48 <= n && n <= 57 {
        Some((n - 48) as u64)
    } else {
        None
    }
}

/// Reads an unsigned number of at most `max`.
pub fn parse_unsigned(s: &str, max: u64) -> (r: Option<u64>)
    ensures
        r is Some <==> read_unsigned(s@, max as int) is Some,
        r is Some ==> r->0 == read_unsigned(s@, max as int)->0,
{
    let v = chars_of(s);
    let start: usize = if v.len() > 0 && v[0] == '+' {
        1
    } else {
        0
    };
    let ghost d = without_plus(s@);
    proof {
        assert(s@.subrange(0, s@.len() as int) =~= s@);
        assert(s@.subrange(1, s@.len() as int) =~= s@.drop_first());
        assert(d == s@.subrange(start as int, v.len() as int));
    }
    if start == v.len() {
        return None;
    }
    let mut value: u64 = 0;
    let mut i: usize = start;
    assert(d.subrange(0, 0) =~= Seq::<char>::empty());
    while i < v.len()
        invariant
            start <= i <= v.len(),
            v@ == s@,
            d == without_plus(s@),
            d == s@.subrange(start as int, v.len() as int),
            value == digits_value(d.subrange(0, i - start)),
            value <= max,
            forall|j: int| 0 <= j < i - start ==> is_digit(#[trigger] d[j]),
        decreases v.len() - i,
    {
        assert(d[i - start] == v@[i as int]);
        let x: u64 = match digit_value(v[i]) {
            Some(x) => x,
            None => {
                assert(!is_digit(d[i - start]));
                return None;
            },
        };
        proof {
            let front = d.subrange(0, i - start + 1);
            assert(front.drop_last() =~= d.subrange(0, i - start));
            assert(front.last() == d[i - start]);
            if all_digits(d) {
                lemma_digits_value_grows(d, i - start + 1);
            }
        }
        if value > (u64::MAX - x) / 10 || value * 10 + x > max {
            return None;
        }
        value = value * 10 + x;
        i = i + 1;
    }
    assert(d.subrange(0, v.len() - start) =~= d);
    Some(value)
}

/// Reading the numeral of a number gives the number back.
pub proof fn law_numeral_reads_back(n: nat, max: int)
    requires
        n <= max,
    ensures
        read_unsigned(decimal(n), max) == Some(n as int),
{
    lemma_decimal(n);
    assert(is_digit(decimal(n)[0]));
}

/// A numeral consists of digits, at least one, whose value is the number.
pub proof fn lemma_decimal(n: nat)
    ensures
        decimal(n).len() > 0,
        all_digits(decimal(n)),
        digits_value(decimal(n)) == n,
    decreases n,
{
    if n < 10 {
        assert(decimal(n).drop_last() =~= Seq::<char>::empty());
        assert(digits_value(decimal(n).drop_last()) == 0);
    } else {
        lemma_decimal(n / 10);
        assert(decimal(n).drop_last() =~= decimal(n / 10));
        assert(decimal(n).last() as int - 48 == n % 10);
        assert forall|i: int| 0 <= i < decimal(n).len() implies is_digit(
            #[trigger] decimal(n)[i],
        ) by {
            if i < decimal(n).len() - 1 {
                assert(decimal(n)[i] == decimal(n / 10)[i]);
            }
        }
    }
}

/// The numeral of a number reads as the number, has no leading zero, and another number
/// has another one.
pub proof fn law_numerals_tell_numbers_apart(a: u64, b: u64, ra: String, rb: String, i: int)
    requires
        call_ensures(decimal_text, (a,), ra),
        call_ensures(decimal_text, (b,), rb),
    ensures
        ra@ == rb@ <==> a == b,
        ra@.len() > 0,
        0 <= i < ra@.len() ==> '0' <= ra@[i] <= '9',
        a > 0 ==> ra@[0] != '0',
        a == 0 ==> ra@ == seq!['0'],
        a < 10 <==> ra@.len() == 1,
        ra@.last() as int == 48 + a % 10,
{
    lemma_decimal(a as nat);
    lemma_decimal(b as nat);
    lemma_no_leading_zero(a as nat);
    if a >= 10 {
        lemma_decimal(a as nat / 10);
    }
}

proof fn lemma_no_leading_zero(n: nat)
    ensures
        decimal(n).len() > 0,
        n > 0 ==> decimal(n)[0] != '0',
    decreases n,
{
    if n >= 10 {
        lemma_no_leading_zero(n / 10);
        assert(decimal(n)[0] == decimal(n / 10)[0]);
    }
}

/// Ten times a number and one digit more is written as the number and the digit, and
/// reads so.
pub proof fn law_digits_weigh_ten_times(a: u64, ra: String, b: u64, rb: String, d: u64)
    requires
        call_ensures(decimal_text, (a,), ra),
        call_ensures(decimal_text, (b,), rb),
        a > 0,
        d < 10,
        b == a * 10 + d,
    ensures
        rb@.drop_last() == ra@,
        rb@.last() as int == 48 + d,
{
    assert(b as nat / 10 == a as nat);
    assert(decimal(b as nat).drop_last() =~= decimal(a as nat));
}

/// What is written can be read where it is not too large, and reads as the number.
pub proof fn law_written_numbers_can_be_read(
    n: u64,
    max: u64,
    written: String,
    s: &str,
    read: Option<u64>,
)
    requires
        call_ensures(decimal_text, (n,), written),
        call_ensures(parse_unsigned, (s, max), read),
        s@ == written@ || s@ == seq!['+'] + written@,
    ensures
        read is Some <==> n <= max,
        read is Some ==> read->0 == n,
{
    lemma_decimal(n as nat);
    let d = decimal(n as nat);
    assert(is_digit(d[0]));
    assert((seq!['+'] + d).drop_first() =~= d);
    assert((seq!['+'] + d)[0] == '+');
    assert(without_plus(s@) == d);
}

/// Nothing but digits, at least one, behind at most one plus sign, is read as a number,
/// and never as one above the limit.
pub proof fn law_only_digits_are_read(s: &str, max: u64, r: Option<u64>, i: int)
    requires
        call_ensures(parse_unsigned, (s, max), r),
    ensures
        s@.len() == 0 ==> r is None,
        s@ == seq!['+'] ==> r is None,
        r is Some ==> r->0 <= max,
        0 <= i < s@.len() && !('0' <= s@[i] <= '9') && !(i == 0 && s@[i] == '+') ==> r is None,
        r is Some && '0' <= s@[0] <= '9' && s@.len() == 1 ==> r->0 == s@[0] as int - 48,
{
    let d = without_plus(s@);
    if 0 <= i < s@.len() && !('0' <= s@[i] <= '9') && !(i == 0 && s@[i] == '+') {
        if s@[0] == '+' {
            assert(d[i - 1] == s@[i]);
        } else {
            assert(d[i] == s@[i]);
        }
        assert(!all_digits(d));
    }
    if s@ == seq!['+'] {
        assert(d.len() == 0);
    }
    if s@.len() == 1 && '0' <= s@[0] <= '9' {
        assert(d == s@);
        assert(digits_value(d.drop_last()) == 0);
    }
}

/// A digit more makes ten times the number and the digit.
pub proof fn law_another_digit_weighs_less(
    s: &str,
    longer: &str,
    c: char,
    max: u64,
    r: Option<u64>,
    rl: Option<u64>,
)
    requires
        call_ensures(parse_unsigned, (s, max), r),
        call_ensures(parse_unsigned, (longer, max), rl),
        longer@ == s@.push(c),
        '0' <= c <= '9',
        r is Some,
    ensures
        rl is Some <==> r->0 * 10 + (c as int - 48) <= max,
        rl is Some ==> rl->0 == r->0 * 10 + (c as int - 48),
{
    let d = without_plus(s@);
    let l = without_plus(longer@);
    assert(longer@[0] == s@[0]);
    assert(l =~= d.push(c));
    assert(l.drop_last() =~= d);
    assert(l.last() == c);
    assert forall|i: int| 0 <= i < l.len() implies is_digit(#[trigger] l[i]) by {
        if i < d.len() {
            assert(l[i] == d[i]);
        }
    }
}

/// A numbered text is the prefix and the numeral.
pub proof fn law_numbered_texts_begin_with_the_prefix(prefix: &str, n: u64, r: String, d: String)
    requires
        call_ensures(numbered, (prefix, n), r),
        call_ensures(decimal_text, (n,), d),
    ensures
        r@ == prefix@ + d@,
{
}

} // verus!
