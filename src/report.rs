//! The numbered report directory of a run: reading the ordinals of earlier
//! runs, choosing the next one, and naming its directory.

use crate::text::{decimal, digit_char, push_decimal, zero_padded};
use vstd::prelude::*;
use vstd::string::{StrSliceExecFns, StringExecFns};

verus! {

pub open spec fn is_digit(c: char) -> bool {
    '0' <= c && c <= '9'
}

pub open spec fn digit_value(c: char) -> nat {
    (c as u32 - '0' as u32) as nat
}

/// The value of a string of decimal digits, most significant first.
pub open spec fn digits_value(s: Seq<char>) -> nat
    decreases s.len(),
{
    if s.len() == 0 {
        0
    } else {
        digits_value(s.drop_last()) * 10 + digit_value(s.last())
    }
}

pub open spec fn all_digits(s: Seq<char>) -> bool {
    forall|i: int| 0 <= i < s.len() ==> is_digit(#[trigger] s[i])
}

/// How a directory name reads as a `u32`: an optional `+`, then at least
/// one decimal digit, with a value that fits.
pub open spec fn ordinal_value(s: Seq<char>) -> Option<u32> {
    let d = if s.len() > 0 && s[0] == '+' {
        s.subrange(1, s.len() as int)
    } else {
        s
    };
    if d.len() > 0 && all_digits(d) && digits_value(d) <= u32::MAX {
        Some(digits_value(d) as u32)
    } else {
        None
    }
}

/// The largest ordinal among the names, or 0 when none reads as one.
pub open spec fn max_ordinal(names: Seq<Seq<char>>) -> nat
    decreases names.len(),
{
    if names.len() == 0 {
        0
    } else {
        let prev = max_ordinal(names.drop_last());
        match ordinal_value(names.last()) {
            Some(v) => if v > prev {
                v as nat
            } else {
                prev
            },
            None => prev,
        }
    }
}

/// The ordinal of the next run: one more than the largest existing one,
/// unless that does not fit in a `u32`.
pub open spec fn next_ordinal_spec(names: Seq<Seq<char>>) -> Option<u32> {
    if max_ordinal(names) < u32::MAX {
        Some((max_ordinal(names) + 1) as u32)
    } else {
        None
    }
}

pub open spec fn names_view(names: Seq<String>) -> Seq<Seq<char>> {
    names.map_values(|s: String| s@)
}

/// Reads a directory name as an ordinal.
pub fn parse_ordinal(name: &str) -> (r: Option<u32>)
    ensures
        r == ordinal_value(name@),
{
    let len = name.unicode_len();
    let ghost s = name@;
    let mut start: usize = 0;
    if len > 0 && name.get_char(0) == '+' {
        start = 1;
    }
    let ghost d = if s.len() > 0 && s[0] == '+' {
        s.subrange(1, s.len() as int)
    } else {
        s
    };
    assert(d =~= s.subrange(start as int, len as int));
    if start >= len {
        return None;
    }
    let mut value: u64 = 0;
    let mut i: usize = start;
    while i < len
        invariant
            start <= i <= len,
            len == s.len(),
            s == name@,
            d =~= s.subrange(start as int, len as int),
            d == (if s.len() > 0 && s[0] == '+' {
                s.subrange(1, s.len() as int)
            } else {
                s
            }),
            value <= u32::MAX,
            value == digits_value(s.subrange(start as int, i as int)),
            all_digits(s.subrange(start as int, i as int)),
        decreases len - i,
    {
        let c = name.get_char(i);
        if c < '0' || c > '9' {
            assert(!is_digit(d[i - start]));
            assert(!all_digits(d));
            return None;
        }
        let next = value * 10 + (c as u64 - '0' as u64);
        assert(s.subrange(start as int, i + 1).drop_last() =~= s.subrange(start as int, i as int));
        assert(s.subrange(start as int, i + 1).last() == c);
        assert(next == digits_value(s.subrange(start as int, i + 1)));
        if next > u32::MAX as u64 {
            proof {
                lemma_digits_value_prefix(d, i + 1 - start);
                assert(d.subrange(0, i + 1 - start) =~= s.subrange(start as int, i + 1));
                assert(digits_value(d) > u32::MAX);
            }
            return None;
        }
        value = next;
        i = i + 1;
    }
    Some(value as u32)
}

/// A prefix of a digit string never has a larger value than the string.
proof fn lemma_digits_value_prefix(s: Seq<char>, k: int)
    requires
        0 <= k <= s.len(),
    ensures
        digits_value(s.subrange(0, k)) <= digits_value(s),
    decreases s.len() - k,
{
    if k < s.len() {
        lemma_digits_value_prefix(s, k + 1);
        assert(s.subrange(0, k + 1).drop_last() =~= s.subrange(0, k));
    } else {
        assert(s.subrange(0, k) =~= s);
    }
}

/// Chooses the ordinal of the next run from the names found in the report
/// root; `None` when the largest existing ordinal is already `u32::MAX`.
pub fn next_ordinal(names: &Vec<String>) -> (r: Option<u32>)
    ensures
        r == next_ordinal_spec(names_view(names@)),
{
    let mut best: u32 = 0;
    let mut k: usize = 0;
    while k < names.len()
        invariant
            k <= names@.len(),
            best as nat == max_ordinal(names_view(names@.subrange(0, k as int))),
        decreases names.len() - k,
    {
        let v = parse_ordinal(names[k].as_str());
        proof {
            assert(names_view(names@.subrange(0, k + 1)).drop_last() =~= names_view(
                names@.subrange(0, k as int),
            ));
        }
        match v {
            Some(x) => {
                if x > best {
                    best = x;
                }
            },
            None => {},
        }
        k = k + 1;
    }
    assert(names@.subrange(0, k as int) =~= names@);
    if best < u32::MAX {
        Some(best + 1)
    } else {
        None
    }
}

/// The directory name of a run: its ordinal with at least four digits.
pub fn ordinal_dir_name(n: u32) -> (r: String)
    ensures
        r@ == zero_padded(n as nat, 4),
{
    let digits = if n < 10 {
        1u32
    } else if n < 100 {
        2
    } else if n < 1000 {
        3
    } else {
        4
    };
    let mut s = String::new();
    let mut k: u32 = digits;
    while k < 4
        invariant
            digits <= k <= 4,
            s@ == Seq::new((k - digits) as nat, |i: int| '0'),
        decreases 4 - k,
    {
        s.append("0");
        proof {
            reveal_strlit("0");
            assert(s@ =~= Seq::new((k + 1 - digits) as nat, |i: int| '0'));
        }
        k = k + 1;
    }
    push_decimal(&mut s, n as u64);
    proof {
        lemma_decimal_len(n as nat);
        if n >= 1000 {
            assert(s@ =~= decimal(n as nat));
        } else {
            assert(s@ =~= zero_padded(n as nat, 4));
        }
    }
    s
}

/// The number of decimal digits of small numbers.
proof fn lemma_decimal_len(n: nat)
    ensures
        n < 10 ==> decimal(n).len() == 1,
        10 <= n < 100 ==> decimal(n).len() == 2,
        100 <= n < 1000 ==> decimal(n).len() == 3,
        1000 <= n ==> decimal(n).len() >= 4,
    decreases n,
{
    if n >= 10 {
        lemma_decimal_len(n / 10);
    }
}

proof fn lemma_digit_char(d: nat)
    requires
        d < 10,
    ensures
        is_digit(digit_char(d)),
        digit_value(digit_char(d)) == d,
{
}

/// Decimal digits read back as the number they render.
pub proof fn lemma_decimal_value(n: nat)
    ensures
        all_digits(decimal(n)),
        digits_value(decimal(n)) == n,
        decimal(n).len() > 0,
    decreases n,
{
    if n < 10 {
        lemma_digit_char(n);
        assert(decimal(n).drop_last() =~= Seq::<char>::empty());
        assert(decimal(n).last() == digit_char(n));
        assert(digits_value(decimal(n)) == digits_value(decimal(n).drop_last()) * 10 + digit_value(
            digit_char(n),
        ));
    } else {
        lemma_decimal_value(n / 10);
        lemma_digit_char(n % 10);
        assert(decimal(n).drop_last() =~= decimal(n / 10));
        assert(decimal(n).last() == digit_char(n % 10));
        assert(digits_value(decimal(n)) == digits_value(decimal(n / 10)) * 10 + digit_value(
            digit_char(n % 10),
        ));
        assert(forall|i: int|
            0 <= i < decimal(n).len() ==> #[trigger] decimal(n)[i] == if i < decimal(n / 10).len() {
                decimal(n / 10)[i]
            } else {
                digit_char(n % 10)
            });
    }
}

/// Leading zeros do not change the value of a digit string.
proof fn lemma_leading_zeros(z: nat, d: Seq<char>)
    ensures
        digits_value(Seq::new(z, |i: int| '0') + d) == digits_value(d),
    decreases d.len(), z,
{
    let zs = Seq::new(z, |i: int| '0');
    if d.len() > 0 {
        assert((zs + d).drop_last() =~= zs + d.drop_last());
        lemma_leading_zeros(z, d.drop_last());
    } else if z > 0 {
        assert((zs + d).drop_last() =~= Seq::new((z - 1) as nat, |i: int| '0') + d);
        lemma_leading_zeros((z - 1) as nat, d);
    } else {
        assert(zs + d =~= d);
    }
}

/// A run's directory name reads back as its ordinal.
pub proof fn lemma_dir_name_reads_back(n: u32)
    ensures
        ordinal_value(zero_padded(n as nat, 4)) == Some(n),
{
    lemma_decimal_value(n as nat);
    let d = decimal(n as nat);
    let p = zero_padded(n as nat, 4);
    if d.len() < 4 {
        let z = (4 - d.len()) as nat;
        lemma_leading_zeros(z, d);
        assert(all_digits(p)) by {
            assert forall|i: int| 0 <= i < p.len() implies is_digit(#[trigger] p[i]) by {
                if i >= z {
                    assert(p[i] == d[i - z]);
                }
            }
        }
        assert(p[0] == '0');
    }
}

/// Each run takes an ordinal above that of every run before it: once the
/// directory of ordinal `v` exists, the next run's ordinal exceeds `v`,
/// unless no larger ordinal fits.
pub proof fn lemma_ordinal_increases(names: Seq<Seq<char>>, v: u32)
    requires
        next_ordinal_spec(names) == Some(v),
    ensures
        next_ordinal_spec(names.push(zero_padded(v as nat, 4))) matches Some(w) ==> w > v,
        next_ordinal_spec(names.push(zero_padded(v as nat, 4))) is None ==> v == u32::MAX,
{
    lemma_dir_name_reads_back(v);
    let after = names.push(zero_padded(v as nat, 4));
    assert(after.drop_last() =~= names);
    assert(max_ordinal(after) >= v);
}

} // verus!
