//! Decimal text for signed integers: printing an `i64` as its decimal
//! string and parsing decimal text back, both against exact specifications.

use vstd::prelude::*;
use crate::text::push_char;

verus! {

/// Whether `c` is a decimal digit.
pub open spec fn is_digit(c: char) -> bool {
    48 <= c as int && c as int <= 57
}

/// The numeric value of a digit character.
pub open spec fn digit_val(c: char) -> int {
    c as int - 48
}

/// The digit character for a value below ten.
pub open spec fn digit_char(d: int) -> char {
    if d == 0 {
        '0'
    } else if d == 1 {
        '1'
    } else if d == 2 {
        '2'
    } else if d == 3 {
        '3'
    } else if d == 4 {
        '4'
    } else if d == 5 {
        '5'
    } else if d == 6 {
        '6'
    } else if d == 7 {
        '7'
    } else if d == 8 {
        '8'
    } else {
        '9'
    }
}

/// The value of a sequence of digit characters, most significant first.
pub open spec fn digits_val(s: Seq<char>) -> int
    decreases s.len(),
{
    if s.len() == 0 {
        0
    } else {
        digits_val(s.drop_last()) * 10 + digit_val(s.last())
    }
}

/// Whether every character of `s` is a decimal digit.
pub open spec fn all_digits(s: Seq<char>) -> bool {
    forall|i: int| 0 <= i < s.len() ==> is_digit(s[i])
}

/// The decimal digit string of a non-negative integer, no leading zeros.
pub open spec fn dec_digits(n: int) -> Seq<char>
    recommends
        n >= 0,
    decreases n,
{
    if n < 10 {
        seq![digit_char(n)]
    } else {
        dec_digits(n / 10).push(digit_char(n % 10))
    }
}

/// The decimal string of an integer: a leading minus sign when negative.
pub open spec fn dec_str_of(n: int) -> Seq<char> {
    if n < 0 {
        seq!['-'] + dec_digits(-n)
    } else {
        dec_digits(n)
    }
}

/// Whether `v` fits in an `i64`.
pub open spec fn in_i64(v: int) -> bool {
    i64::MIN <= v <= i64::MAX
}

/// What parsing decimal text as a signed 64-bit integer yields: an optional
/// sign, then at least one digit, and a value within the `i64` range;
/// anything else is rejected.
pub open spec fn parse_i64_spec(s: Seq<char>) -> Option<int> {
    let signed = s.len() > 0 && (s[0] == '-' || s[0] == '+');
    let ds = if signed {
        s.drop_first()
    } else {
        s
    };
    if ds.len() > 0 && all_digits(ds) {
        let v = if signed && s[0] == '-' {
            -digits_val(ds)
        } else {
            digits_val(ds)
        };
        if in_i64(v) {
            Some(v)
        } else {
            None
        }
    } else {
        None
    }
}

/// A digit string has a non-negative value.
pub proof fn lemma_digits_val_nonneg(s: Seq<char>)
    requires
        all_digits(s),
    ensures
        digits_val(s) >= 0,
    decreases s.len(),
{
    if s.len() > 0 {
        lemma_digits_val_nonneg(s.drop_last());
    }
}

/// Appending further digits never shrinks the value of a digit string.
pub proof fn lemma_digits_val_extend(s: Seq<char>, t: Seq<char>)
    requires
        all_digits(s),
        all_digits(t),
    ensures
        digits_val(s + t) >= digits_val(s),
    decreases t.len(),
{
    lemma_digits_val_nonneg(s);
    if t.len() == 0 {
        assert(s + t =~= s);
    } else {
        assert((s + t).drop_last() =~= s + t.drop_last());
        assert(all_digits(t.drop_last()));
        lemma_digits_val_extend(s, t.drop_last());
        lemma_digits_val_nonneg(s + t.drop_last());
        assert(digits_val(s + t) == digits_val(s + t.drop_last()) * 10 + digit_val((s + t).last()));
        assert(is_digit(t.last()));
    }
}

/// The digit string of a non-negative integer consists of digits and
/// evaluates back to the integer.
pub proof fn lemma_dec_digits_val(n: int)
    requires
        n >= 0,
    ensures
        all_digits(dec_digits(n)),
        dec_digits(n).len() >= 1,
        digits_val(dec_digits(n)) == n,
    decreases n,
{
    if n < 10 {
        let s = seq![digit_char(n)];
        assert(s.drop_last() =~= Seq::<char>::empty());
        assert(digits_val(Seq::<char>::empty()) == 0);
        assert(s.last() == digit_char(n));
        assert(digit_val(digit_char(n)) == n);
        assert(digits_val(s) == digit_val(digit_char(n)));
    } else {
        lemma_dec_digits_val(n / 10);
        let p = dec_digits(n / 10);
        let s = p.push(digit_char(n % 10));
        assert(s.drop_last() =~= p);
        assert(s.last() == digit_char(n % 10));
        assert(0 <= n % 10 < 10);
        assert(digit_val(digit_char(n % 10)) == n % 10);
        assert(digits_val(s) == (n / 10) * 10 + n % 10);
        assert(forall|i: int| 0 <= i < s.len() ==> is_digit(#[trigger] s[i]));
    }
}

/// Parsing inverts printing: the decimal string of any `i64`-ranged
/// integer parses back to exactly that integer.
pub proof fn lemma_parse_dec_str(n: int)
    requires
        in_i64(n),
    ensures
        parse_i64_spec(dec_str_of(n)) == Some(n),
{
    if n >= 0 {
        lemma_dec_digits_val(n);
        let s = dec_digits(n);
        assert(is_digit(s[0]));
        assert(s[0] != '-' && s[0] != '+');
        assert(parse_i64_spec(s) == Some(digits_val(s)));
    } else {
        lemma_dec_digits_val(-n);
        let d = dec_digits(-n);
        let s = seq!['-'] + d;
        assert(s[0] == '-');
        assert(s.drop_first() =~= d);
        assert(all_digits(d));
        assert(parse_i64_spec(s) == Some(-digits_val(d)));
    }
}

/// Appends the decimal digits of `m` to `s`.
fn push_dec_digits(s: &mut String, m: u64)
    ensures
        final(s)@ == old(s)@ + dec_digits(m as int),
    decreases m,
{
    if m >= 10 {
        push_dec_digits(s, m / 10);
        push_char(s, digit_to_char(m % 10));
        proof {
            assert(old(s)@ + dec_digits(m as int) =~= (old(s)@ + dec_digits(m as int / 10)).push(
                digit_char(m as int % 10),
            ));
        }
    } else {
        push_char(s, digit_to_char(m));
        proof {
            assert(old(s)@ + dec_digits(m as int) =~= old(s)@.push(digit_char(m as int)));
        }
    }
}

/// The digit character for a value below ten.
fn digit_to_char(d: u64) -> (c: char)
    requires
        d < 10,
    ensures
        c == digit_char(d as int),
{
    if d == 0 {
        '0'
    } else if d == 1 {
        '1'
    } else if d == 2 {
        '2'
    } else if d == 3 {
        '3'
    } else if d == 4 {
        '4'
    } else if d == 5 {
        '5'
    } else if d == 6 {
        '6'
    } else if d == 7 {
        '7'
    } else if d == 8 {
        '8'
    } else {
        '9'
    }
}

/// Prints a signed 64-bit integer as decimal text.
pub fn i64_to_string(n: i64) -> (r: String)
    ensures
        r@ == dec_str_of(n as int),
{
    let mut s = String::new();
    if n < 0 {
        push_char(&mut s, '-');
        let m: u64 = ((-(n + 1)) as u64) + 1;
        assert(m as int == -(n as int));
        push_dec_digits(&mut s, m);
        proof {
            assert(s@ =~= seq!['-'] + dec_digits(-(n as int)));
        }
    } else {
        push_dec_digits(&mut s, n as u64);
        proof {
            assert(s@ =~= dec_digits(n as int));
        }
    }
    s
}

/// Parses decimal text as a signed 64-bit integer, exactly per
/// `parse_i64_spec`.
#[verifier::loop_isolation(false)]
pub fn parse_i64(s: &str) -> (r: Option<i64>)
    ensures
        match r {
            Some(n) => parse_i64_spec(s@) == Some(n as int),
            None => parse_i64_spec(s@) is None,
        },
{
    let len = s.unicode_len();
    if len == 0 {
        return None;
    }
    let c0 = s.get_char(0);
    let neg = c0 == '-';
    let signed = neg || c0 == '+';
    let start: usize = if signed {
        1
    } else {
        0
    };
    let ghost ds = if signed {
        s@.drop_first()
    } else {
        s@
    };
    proof {
        assert(ds =~= s@.subrange(start as int, len as int));
    }
    if start >= len {
        return None;
    }
    let mut j = start;
    let mut acc: i128 = 0;
    let bound: i128 = 0x8000_0000_0000_0000;
    while j < len
        invariant
            start <= j <= len,
            len == s@.len(),
            start == 1 ==> signed,
            ds == s@.subrange(start as int, len as int),
            all_digits(ds.subrange(0, j - start)),
            acc == digits_val(ds.subrange(0, j - start)),
            0 <= acc <= 0x8000_0000_0000_0000i128,
        decreases len - j,
    {
        let c = s.get_char(j);
        let u = c as u32;
        if u < 48 || u > 57 {
            proof {
                assert(ds[j - start] == s@[j as int]);
                assert(!is_digit(ds[j - start]));
            }
            return None;
        }
        let d: i128 = (u - 48) as i128;
        let acc2: i128 = acc * 10 + d;
        proof {
            let p2 = ds.subrange(0, j + 1 - start);
            assert(p2.drop_last() =~= ds.subrange(0, j - start));
            assert(p2.last() == s@[j as int]);
            assert(digit_val(p2.last()) == d);
            assert(digits_val(p2) == acc2);
            assert(all_digits(p2));
        }
        if acc2 > bound {
            proof {
                let p2 = ds.subrange(0, j + 1 - start);
                if all_digits(ds) {
                    let t = ds.subrange(j + 1 - start, ds.len() as int);
                    assert(ds =~= p2 + t);
                    assert(all_digits(t));
                    lemma_digits_val_extend(p2, t);
                    assert(digits_val(ds) >= acc2);
                }
            }
            return None;
        }
        acc = acc2;
        j = j + 1;
    }
    proof {
        assert(ds.subrange(0, j - start) =~= ds);
    }
    if neg {
        proof {
            assert(parse_i64_spec(s@) == Some(-digits_val(ds)));
        }
        Some((-acc) as i64)
    } else {
        if acc >= bound {
            proof {
                assert(digits_val(ds) > i64::MAX);
            }
            return None;
        }
        proof {
            assert(parse_i64_spec(s@) == Some(digits_val(ds)));
        }
        Some(acc as i64)
    }
}

} // verus!
