//! Decimal text of integers: reading an `i64` the way `str::parse::<i64>`
//! does, and writing integers the way their `Display` does.
use vstd::prelude::*;

verus! {

/// The ASCII decimal digits.
pub open spec fn is_digit(c: char) -> bool {
    '0' <= c && c <= '9'
}

/// The value of a decimal digit.
pub open spec fn digit_value(c: char) -> int {
    (c as int) - ('0' as int)
}

/// The digit character for `d` (below ten).
pub open spec fn digit_char(d: int) -> char {
    (d + ('0' as int)) as char
}

/// Whether every character of `s` is a decimal digit.
pub open spec fn all_digits(s: Seq<char>) -> bool {
    forall|k: int| 0 <= k < s.len() ==> is_digit(#[trigger] s[k])
}

/// The number written by the digits `s`, most significant first.
pub open spec fn digits_value(s: Seq<char>) -> int
    decreases s.len(),
{
    if s.len() == 0 {
        0
    } else {
        digits_value(s.drop_last()) * 10 + digit_value(s.last())
    }
}

/// What `str::parse::<i64>` gives: an optional `+` or `-`, then one or more
/// ASCII digits whose value, with its sign, lies in the range of `i64`.
pub open spec fn parse_i64_spec(s: Seq<char>) -> Option<i64> {
    if s.len() == 0 {
        None
    } else {
        let neg = s[0] == '-';
        let ds = if s[0] == '-' || s[0] == '+' {
            s.drop_first()
        } else {
            s
        };
        let v = if neg {
            -digits_value(ds)
        } else {
            digits_value(ds)
        };
        if ds.len() == 0 || !all_digits(ds) {
            None
        } else if i64::MIN <= v && v <= i64::MAX {
            Some(v as i64)
        } else {
            None
        }
    }
}

/// The decimal text of `n`, without leading zeros.
pub open spec fn nat_text(n: nat) -> Seq<char>
    decreases n,
{
    if n < 10 {
        seq![digit_char(n as int)]
    } else {
        nat_text(n / 10).push(digit_char((n % 10) as int))
    }
}

/// The decimal text of `i`: a minus sign for negatives, then the digits.
pub open spec fn int_text(i: int) -> Seq<char> {
    if i < 0 {
        seq!['-'] + nat_text((-i) as nat)
    } else {
        nat_text(i as nat)
    }
}

/// The text of a boolean.
pub open spec fn bool_text(b: bool) -> Seq<char> {
    if b {
        seq!['t', 'r', 'u', 'e']
    } else {
        seq!['f', 'a', 'l', 's', 'e']
    }
}

proof fn lemma_digits_value_nonneg(s: Seq<char>)
    requires
        all_digits(s),
    ensures
        digits_value(s) >= 0,
    decreases s.len(),
{
    if s.len() > 0 {
        assert(all_digits(s.drop_last())) by {
            assert forall|k: int| 0 <= k < s.drop_last().len() implies is_digit(
                #[trigger] s.drop_last()[k],
            ) by {
                assert(s.drop_last()[k] == s[k]);
            }
        }
        lemma_digits_value_nonneg(s.drop_last());
        assert(is_digit(s[s.len() - 1]));
    }
}

/// The text of `n` is made of digits, starts with a digit and reads back as
/// `n`.
pub proof fn lemma_nat_text(n: nat)
    ensures
        all_digits(nat_text(n)),
        digits_value(nat_text(n)) == n,
        nat_text(n).len() >= 1,
    decreases n,
{
    if n >= 10 {
        lemma_nat_text(n / 10);
        let t = nat_text(n / 10);
        let u = t.push(digit_char((n % 10) as int));
        assert(u.drop_last() =~= t);
        assert forall|k: int| 0 <= k < u.len() implies is_digit(#[trigger] u[k]) by {
            if k < t.len() {
                assert(u[k] == t[k]);
            }
        }
        assert(n == (n / 10) * 10 + n % 10) by (nonlinear_arith);
        lemma_digit_char((n % 10) as int);
        assert(u.last() == digit_char((n % 10) as int));
        assert(digit_value(u.last()) == n % 10);
        assert(digits_value(t) == n / 10);
        assert(digits_value(u) == digits_value(t) * 10 + digit_value(u.last()));
        assert(digits_value(u) == n);
        assert(nat_text(n) == u);
    } else {
        lemma_digit_char(n as int);
        let u = nat_text(n);
        assert(u.drop_last() =~= Seq::<char>::empty());
        assert(digits_value(Seq::<char>::empty()) == 0);
        assert(u.last() == digit_char(n as int));
        assert(digits_value(u) == n);
    }
}

/// The digits of a value whose text was cut short still stand for no more
/// than the whole.
proof fn lemma_digits_value_push(s: Seq<char>, c: char)
    requires
        all_digits(s),
        is_digit(c),
    ensures
        digits_value(s.push(c)) == digits_value(s) * 10 + digit_value(c),
        digits_value(s.push(c)) >= digits_value(s),
{
    assert(s.push(c).drop_last() =~= s);
    lemma_digits_value_nonneg(s);
}

/// `str::parse::<i64>`: reads an optional sign and decimal digits.
pub fn parse_i64(s: &[char]) -> (res: Option<i64>)
    ensures
        res == parse_i64_spec(s@),
{
    let n = s.len();
    if n == 0 {
        return None;
    }
    let neg = s[0] == '-';
    let start: usize = if s[0] == '-' || s[0] == '+' {
        1
    } else {
        0
    };
    let ghost ds = if s@[0] == '-' || s@[0] == '+' {
        s@.drop_first()
    } else {
        s@
    };
    assert(ds =~= s@.subrange(start as int, n as int));
    if start == n {
        return None;
    }
    let mut j: usize = start;
    while j < n
        invariant
            n == s@.len(),
            start <= j <= n,
            ds =~= s@.subrange(start as int, n as int),
            n > 0,
            ds == (if s@[0] == '-' || s@[0] == '+' { s@.drop_first() } else { s@ }),
            forall|k: int| start <= k < j ==> is_digit(#[trigger] s@[k]),
        decreases n - j,
    {
        let c = s[j];
        if !('0' <= c && c <= '9') {
            proof {
                assert(ds[j - start] == c);
                assert(!is_digit(ds[j - start]));
                assert(!all_digits(ds));
            }
            return None;
        }
        j += 1;
    }
    assert(all_digits(ds)) by {
        assert forall|k: int| 0 <= k < ds.len() implies is_digit(#[trigger] ds[k]) by {
            assert(ds[k] == s@[k + start]);
        }
    }
    // 2^63: the largest magnitude an i64 can hold (for a negative value).
    let limit: u64 = 9223372036854775808;
    let mut acc: u64 = 0;
    let mut over = false;
    let mut i: usize = start;
    while i < n
        invariant
            n == s@.len(),
            start <= i <= n,
            ds =~= s@.subrange(start as int, n as int),
            all_digits(ds),
            limit == 9223372036854775808u64,
            !over ==> acc as int == digits_value(s@.subrange(start as int, i as int)),
            !over ==> acc <= limit,
            over ==> digits_value(s@.subrange(start as int, i as int)) > limit,
        decreases n - i,
    {
        let c = s[i];
        let ghost prev = s@.subrange(start as int, i as int);
        proof {
            assert(s@.subrange(start as int, i + 1) =~= prev.push(c));
            assert(c == ds[i - start]);
            assert(all_digits(prev)) by {
                assert forall|k: int| 0 <= k < prev.len() implies is_digit(#[trigger] prev[k]) by {
                    assert(prev[k] == ds[k]);
                }
            }
            lemma_digits_value_push(prev, c);
        }
        if !over {
            let d: u64 = (c as u64) - ('0' as u64);
            if acc > (limit - d) / 10 {
                over = true;
                assert(acc * 10 + d > limit) by (nonlinear_arith)
                    requires
                        acc > (limit - d) / 10,
                        d <= 9,
                ;
            } else {
                assert(acc * 10 + d <= limit) by (nonlinear_arith)
                    requires
                        acc <= (limit - d) / 10,
                        d <= 9,
                ;
                acc = acc * 10 + d;
            }
        }
        i += 1;
    }
    assert(s@.subrange(start as int, n as int) == ds);
    if over {
        None
    } else if neg {
        let v: i128 = -(acc as i128);
        Some(v as i64)
    } else if acc <= 9223372036854775807 {
        Some(acc as i64)
    } else {
        None
    }
}

proof fn lemma_digit_char(d: int)
    requires
        0 <= d < 10,
    ensures
        is_digit(digit_char(d)),
        digit_value(digit_char(d)) == d,
{
}

/// The decimal text of `n`, as `u64`'s `Display` writes it.
pub fn u64_text(n: u64) -> (res: String)
    ensures
        res@ == nat_text(n as nat),
{
    if n == 0 {
        return crate::text::string_of(&['0']);
    }
    let mut digits: Vec<char> = Vec::new();
    let mut m: u64 = n;
    while m > 0
        invariant
            m > 0 ==> nat_text(n as nat) == nat_text(m as nat) + digits@,
            m == 0 ==> nat_text(n as nat) == digits@,
        decreases m,
    {
        let d = m % 10;
        let c = ((d as u8) + 48) as char;
        proof {
            assert(c == digit_char(d as int));
        }
        let ghost before = digits@;
        digits.insert(0, c);
        proof {
            assert(digits@ =~= seq![c] + before);
            if m >= 10 {
                assert(nat_text(m as nat) == nat_text((m / 10) as nat).push(c));
                assert(nat_text((m / 10) as nat).push(c) + before =~= nat_text((m / 10) as nat)
                    + digits@);
            } else {
                assert(nat_text(m as nat) == seq![c]);
            }
        }
        m = m / 10;
    }
    crate::text::string_of(digits.as_slice())
}

/// The decimal text of `i`, as `i64`'s `Display` writes it.
pub fn i64_text(i: i64) -> (res: String)
    ensures
        res@ == int_text(i as int),
{
    if i < 0 {
        let mag: u64 = (-(i as i128)) as u64;
        let digits = u64_text(mag);
        let mut res = crate::text::string_of(&['-']);
        crate::text::push_all(&mut res, digits.as_str());
        assert(res@ =~= int_text(i as int));
        res
    } else {
        u64_text(i as u64)
    }
}

/// The decimal text of `n`, as `usize`'s `Display` writes it.
pub fn usize_text(n: usize) -> (res: String)
    ensures
        res@ == nat_text(n as nat),
{
    u64_text(n as u64)
}

/// The text of a boolean, as `bool`'s `Display` writes it.
pub fn bool_string(b: bool) -> (res: String)
    ensures
        res@ == bool_text(b),
{
    if b {
        crate::text::string_of(&['t', 'r', 'u', 'e'])
    } else {
        crate::text::string_of(&['f', 'a', 'l', 's', 'e'])
    }
}

/// The text of every `i64` reads back as that same number.
pub proof fn lemma_i64_text_parses_back(i: i64)
    ensures
        parse_i64_spec(int_text(i as int)) == Some(i),
{
    let t = int_text(i as int);
    if i < 0 {
        let m = (-i) as nat;
        lemma_nat_text(m);
        let ds = nat_text(m);
        assert(t[0] == '-');
        assert(t.drop_first() =~= ds);
    } else {
        lemma_nat_text(i as nat);
        let ds = nat_text(i as nat);
        assert(is_digit(ds[0]));
    }
}

} // verus!
