//! Decimal text of unsigned integers, as `u64::to_string` writes it.

use vstd::prelude::*;

verus! {

/// The ten decimal digits, in order of value.
pub open spec fn digit_table() -> Seq<char> {
    seq!['0', '1', '2', '3', '4', '5', '6', '7', '8', '9']
}

/// The decimal text of `n`: its digits from the most significant one on,
/// without leading zeros; zero is written `0`.
pub open spec fn decimal(n: nat) -> Seq<char>
    decreases n,
{
    if n < 10 {
        seq![digit_table()[n as int]]
    } else {
        decimal(n / 10).push(digit_table()[(n % 10) as int])
    }
}

/// The value of one decimal digit character.
pub open spec fn digit_value(c: char) -> int {
    c as int - '0' as int
}

/// The value of a text of decimal digits.
pub open spec fn decimal_value(s: Seq<char>) -> int
    decreases s.len(),
{
    if s.len() == 0 {
        0
    } else {
        decimal_value(s.drop_last()) * 10 + digit_value(s.last())
    }
}

/// The one-character text of the digit `d`.
fn digit_str(d: usize) -> (s: &'static str)
    requires
        d < 10,
    ensures
        s@ == seq![digit_table()[d as int]],
{
    proof {
        reveal_strlit("0123456789");
        assert("0123456789"@ =~= digit_table());
    }
    let s = "0123456789".substring_char(d, d + 1);
    proof {
        assert(digit_table().subrange(d as int, d + 1) =~= seq![digit_table()[d as int]]);
    }
    s
}

/// Appends the decimal text of `n` to `out`.
pub fn append_decimal(out: &mut String, n: u64)
    ensures
        final(out)@ == old(out)@ + decimal(n as nat),
    decreases n,
{
    if n >= 10 {
        append_decimal(out, n / 10);
    }
    let d = (n % 10) as usize;
    out.append(digit_str(d));
    proof {
        if n >= 10 {
            assert(old(out)@ + decimal((n / 10) as nat) + seq![digit_table()[d as int]]
                =~= old(out)@ + decimal(n as nat));
        } else {
            assert(old(out)@ + seq![digit_table()[d as int]] =~= old(out)@ + decimal(n as nat));
        }
    }
}

/// The decimal text of `n`.
pub fn u64_to_decimal(n: u64) -> (s: String)
    ensures
        s@ == decimal(n as nat),
{
    let mut s = String::new();
    append_decimal(&mut s, n);
    proof {
        assert(Seq::<char>::empty() + decimal(n as nat) =~= decimal(n as nat));
    }
    s
}

/// Reading the decimal text of a number gives the number back, and the text
/// is made of digits only, with no leading zero unless the number is zero.
pub proof fn lemma_decimal_value(n: nat)
    ensures
        decimal_value(decimal(n)) == n,
        forall|i: int| 0 <= i < decimal(n).len() ==> digit_table().contains(#[trigger] decimal(n)[i]),
        decimal(n).len() >= 1,
        decimal(n)[0] == '0' ==> n == 0,
    decreases n,
{
    let t = digit_table();
    assert(t[0] == '0' && t[1] == '1' && t[2] == '2' && t[3] == '3' && t[4] == '4');
    assert(t[5] == '5' && t[6] == '6' && t[7] == '7' && t[8] == '8' && t[9] == '9');
    if n < 10 {
        let s = decimal(n);
        assert(s.drop_last() =~= Seq::<char>::empty());
        assert(digit_value(t[n as int]) == n);
        assert(s.last() == t[n as int]);
        assert(decimal_value(Seq::<char>::empty()) == 0);
        assert(t.contains(t[n as int]));
    } else {
        lemma_decimal_value(n / 10);
        let s = decimal(n);
        let d = (n % 10) as int;
        assert(s.drop_last() =~= decimal(n / 10));
        assert(digit_value(t[d]) == d);
        assert(s.last() == t[d]);
        assert(n == (n / 10) * 10 + n % 10) by (nonlinear_arith);
        assert(t.contains(t[d]));
        assert forall|i: int| 0 <= i < s.len() implies t.contains(#[trigger] s[i]) by {
            if i < s.len() - 1 {
                assert(s[i] == decimal(n / 10)[i]);
            }
        }
        assert(s[0] == decimal(n / 10)[0]);
    }
}

/// Every character of a decimal text is one of the ten digits.
pub proof fn lemma_decimal_is_digits(n: nat)
    ensures
        forall|i: int| 0 <= i < decimal(n).len() ==> '0' <= #[trigger] decimal(n)[i] <= '9',
{
    lemma_decimal_value(n);
    let t = digit_table();
    assert forall|i: int| 0 <= i < decimal(n).len() implies '0' <= #[trigger] decimal(n)[i] <= '9' by {
        assert(t.contains(decimal(n)[i]));
        let j = choose|j: int| 0 <= j < t.len() && t[j] == decimal(n)[i];
        assert(t[0] == '0' && t[1] == '1' && t[2] == '2' && t[3] == '3' && t[4] == '4');
        assert(t[5] == '5' && t[6] == '6' && t[7] == '7' && t[8] == '8' && t[9] == '9');
    }
}

} // verus!
