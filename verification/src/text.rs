//! Verified building blocks for rendering text: decimal digits, zero padding,
//! and assembling character sequences into strings.

use vstd::prelude::*;
use vstd::string::*;

verus! {

/// The digit character of `d` (meaningful for `d < 10`).
pub open spec fn digit_char(d: nat) -> char {
    if d == 0 {
        '0'
    } else if d == 1 {
        '1'
    } else if d == 2 {
        '2'
    } else if d == 3 {
        '3'
    } else if d == 4 {
        '4'
    } else if d == 5 {
        '5'
    } else if d == 6 {
        '6'
    } else if d == 7 {
        '7'
    } else if d == 8 {
        '8'
    } else {
        '9'
    }
}

/// Decimal digits of `n`, most significant first, without leading zeros
/// (the single digit `0` for zero).
pub open spec fn dec_digits(n: nat) -> Seq<char>
    decreases n,
{
    if n < 10 {
        seq![digit_char(n)]
    } else {
        dec_digits(n / 10) + seq![digit_char(n % 10)]
    }
}

/// Decimal rendering of a signed value, `-` first when negative.
pub open spec fn int_digits(i: int) -> Seq<char> {
    if i < 0 {
        seq!['-'] + dec_digits((-i) as nat)
    } else {
        dec_digits(i as nat)
    }
}

/// `s` left-padded with zero digits to width `w`.
pub open spec fn zero_pad(s: Seq<char>, w: nat) -> Seq<char> {
    if s.len() >= w {
        s
    } else {
        Seq::new((w - s.len()) as nat, |i: int| '0') + s
    }
}

/// `s` with trailing zero digits removed, at least one character kept.
pub open spec fn trim_zeros(s: Seq<char>) -> Seq<char>
    decreases s.len(),
{
    if s.len() <= 1 {
        s
    } else if s.last() == '0' {
        trim_zeros(s.drop_last())
    } else {
        s
    }
}

/// The digit character of `d` as an executable value.
pub fn digit_of(d: u64) -> (r: char)
    requires
        d < 10,
    ensures
        r == digit_char(d as nat),
{
    if d == 0 {
        '0'
    } else if d == 1 {
        '1'
    } else if d == 2 {
        '2'
    } else if d == 3 {
        '3'
    } else if d == 4 {
        '4'
    } else if d == 5 {
        '5'
    } else if d == 6 {
        '6'
    } else if d == 7 {
        '7'
    } else if d == 8 {
        '8'
    } else {
        '9'
    }
}

/// Append the decimal digits of `n` to `out`.
pub fn push_dec(out: &mut Vec<char>, n: u64)
    ensures
        final(out)@ == old(out)@ + dec_digits(n as nat),
    decreases n,
{
    if n >= 10 {
        push_dec(out, n / 10);
    }
    let d = digit_of(n % 10);
    out.push(d);
    proof {
        if n < 10 {
            assert(n % 10 == n);
        }
        assert(final(out)@ =~= old(out)@ + dec_digits(n as nat));
    }
}

/// Append the decimal digits of `n`, `-` first when negative.
pub fn push_int(out: &mut Vec<char>, n: i64)
    ensures
        final(out)@ == old(out)@ + int_digits(n as int),
{
    if n < 0 {
        out.push('-');
        let m: u64 = if n == i64::MIN {
            9223372036854775808u64
        } else {
            (-n) as u64
        };
        assert(m == -(n as int));
        push_dec(out, m);
        assert(final(out)@ =~= old(out)@ + int_digits(n as int));
    } else {
        push_dec(out, n as u64);
    }
}

/// Append the decimal digits of `n`, left-padded with zeros to `width`.
pub fn push_padded(out: &mut Vec<char>, n: u64, width: usize)
    ensures
        final(out)@ == old(out)@ + zero_pad(dec_digits(n as nat), width as nat),
{
    let mut digits: Vec<char> = Vec::new();
    push_dec(&mut digits, n);
    let ghost ds = digits@;
    let mut k: usize = digits.len();
    while k < width
        invariant
            digits@ == ds,
            ds == dec_digits(n as nat),
            digits.len() <= k,
            k == digits.len() || k <= width,
            out@ == old(out)@ + Seq::new((k - digits.len()) as nat, |i: int| '0'),
        decreases width - k,
    {
        out.push('0');
        k += 1;
        assert(out@ =~= old(out)@ + Seq::new((k - digits.len()) as nat, |i: int| '0'));
    }
    out.append(&mut digits);
    assert(final(out)@ =~= old(out)@ + zero_pad(ds, width as nat));
}

/// Remove trailing zero digits, keeping at least one character.
pub fn pop_zeros(v: &mut Vec<char>)
    requires
        old(v).len() >= 1,
    ensures
        final(v)@ == trim_zeros(old(v)@),
{
    while v.len() > 1 && v[v.len() - 1] == '0'
        invariant
            v.len() >= 1,
            trim_zeros(v@) == trim_zeros(old(v)@),
        decreases v.len(),
    {
        v.pop();
    }
}

/// The characters of `s`, one by one.
pub fn str_chars(s: &str) -> (r: Vec<char>)
    ensures
        r@ == s@,
{
    let n = s.unicode_len();
    let mut v: Vec<char> = Vec::new();
    let mut i: usize = 0;
    while i < n
        invariant
            i <= n,
            n == s@.len(),
            v@ == s@.take(i as int),
        decreases n - i,
    {
        let c = s.get_char(i);
        v.push(c);
        i += 1;
        assert(v@ =~= s@.take(i as int));
    }
    assert(v@ =~= s@);
    v
}

/// Append the characters of `s` to `out`.
pub fn push_str(out: &mut Vec<char>, s: &str)
    ensures
        final(out)@ == old(out)@ + s@,
{
    let mut cs = str_chars(s);
    out.append(&mut cs);
}

/// Relies on `String`'s `FromIterator` impl: collecting characters yields the
/// string of exactly those characters, in order.
#[verifier::external_body]
pub fn chars_to_string(v: &Vec<char>) -> (r: String)
    ensures
        r@ == v@,
{
    v.iter().collect()
}

/// The suffix of `s` after its last `/` (all of `s` when none occurs).
pub open spec fn after_last_slash(s: Seq<char>) -> Seq<char>
    decreases s.len(),
{
    if s.len() == 0 {
        s
    } else if s.last() == '/' {
        Seq::<char>::empty()
    } else {
        after_last_slash(s.drop_last()) + seq![s.last()]
    }
}

/// The basename of a path: the part after the last `/`.
pub fn push_basename(out: &mut Vec<char>, path: &str)
    ensures
        final(out)@ == old(out)@ + after_last_slash(path@),
{
    let chars = str_chars(path);
    let mut acc: Vec<char> = Vec::new();
    let mut i: usize = 0;
    while i < chars.len()
        invariant
            i <= chars.len(),
            chars@ == path@,
            acc@ == after_last_slash(path@.take(i as int)),
        decreases chars.len() - i,
    {
        let c = chars[i];
        if c == '/' {
            acc.clear();
        } else {
            acc.push(c);
        }
        i += 1;
        proof {
            let t = path@.take(i as int);
            assert(t.drop_last() =~= path@.take(i - 1));
            assert(t.last() == path@[i - 1]);
            assert(acc@ =~= after_last_slash(t));
        }
    }
    proof {
        assert(path@.take(path@.len() as int) =~= path@);
    }
    let mut tail = acc;
    out.append(&mut tail);
}

} // verus!
