//! Rendering a position as text: the three coordinates of a vector,
//! space-separated, in milli-units, each in plain decimal with a leading
//! minus sign when negative. The fixed-point model has no scientific
//! notation; the contract pins the exact character sequence.

use vstd::prelude::*;
use vstd::string::StringExecFns;

use crate::vec3::Vec3;

verus! {

/// The character for one decimal digit.
pub open spec fn spec_digit(d: nat) -> char {
    if d == 0 {
        '0'
    } else if d == 1 {
        '1'
    } else if d == 2 {
        '2'
    } else if d == 3 {
        '3'
    } else if d == 4 {
        '4'
    } else if d == 5 {
        '5'
    } else if d == 6 {
        '6'
    } else if d == 7 {
        '7'
    } else if d == 8 {
        '8'
    } else {
        '9'
    }
}

/// The decimal digits of `n`, most significant first.
pub open spec fn spec_digits(n: nat) -> Seq<char>
    decreases n,
{
    if n < 10 {
        seq![spec_digit(n)]
    } else {
        spec_digits(n / 10).push(spec_digit(n % 10))
    }
}

/// The decimal rendering of a signed integer.
pub open spec fn spec_int_str(x: int) -> Seq<char> {
    if x < 0 {
        seq!['-'] + spec_digits((-x) as nat)
    } else {
        spec_digits(x as nat)
    }
}

/// The rendering of a position: the three coordinates, space-separated.
pub open spec fn spec_coord_str(x: int, y: int, z: int) -> Seq<char> {
    spec_int_str(x) + seq![' '] + spec_int_str(y) + seq![' '] + spec_int_str(z)
}

/// One decimal digit as text.
fn digit_str(d: u8) -> (r: &'static str)
    requires
        d < 10,
    ensures
        r@ == seq![spec_digit(d as nat)],
{
    proof {
        reveal_strlit("0");
        reveal_strlit("1");
        reveal_strlit("2");
        reveal_strlit("3");
        reveal_strlit("4");
        reveal_strlit("5");
        reveal_strlit("6");
        reveal_strlit("7");
        reveal_strlit("8");
        reveal_strlit("9");
    }
    let r = match d {
        0 => "0",
        1 => "1",
        2 => "2",
        3 => "3",
        4 => "4",
        5 => "5",
        6 => "6",
        7 => "7",
        8 => "8",
        _ => "9",
    };
    proof {
        assert(r@ =~= seq![spec_digit(d as nat)]);
    }
    r
}

/// The digit characters of a digit list, last digit first (digits are
/// collected least-significant first, so this reads them back in
/// printing order).
pub open spec fn rev_chars(ds: Seq<u8>) -> Seq<char>
    decreases ds.len(),
{
    if ds.len() == 0 {
        Seq::empty()
    } else {
        seq![spec_digit(ds.last() as nat)] + rev_chars(ds.drop_last())
    }
}

/// Reading the reversed digit list at position `i` gives the digit at
/// position `len - 1 - i`.
proof fn lemma_rev_chars_index(ds: Seq<u8>, i: int)
    requires
        0 <= i < ds.len(),
    ensures
        rev_chars(ds).len() == ds.len(),
        rev_chars(ds)[i] == spec_digit(ds[ds.len() - 1 - i] as nat),
    decreases ds.len(),
{
    lemma_rev_chars_len(ds);
    if i > 0 {
        lemma_rev_chars_index(ds.drop_last(), i - 1);
    }
}

proof fn lemma_rev_chars_len(ds: Seq<u8>)
    ensures
        rev_chars(ds).len() == ds.len(),
    decreases ds.len(),
{
    if ds.len() > 0 {
        lemma_rev_chars_len(ds.drop_last());
    }
}

/// Append the decimal rendering of `n` to `s`.
fn push_u128(s: &mut String, n: u128)
    ensures
        final(s)@ == old(s)@ + spec_digits(n as nat),
{
    let mut digits: Vec<u8> = Vec::new();
    if n == 0 {
        digits.push(0u8);
        proof {
            assert(digits@.last() == 0u8);
            assert(digits@.drop_last() =~= Seq::<u8>::empty());
            assert(rev_chars(Seq::<u8>::empty()) == Seq::<char>::empty());
            assert(rev_chars(digits@) == seq![spec_digit(0)] + Seq::<char>::empty());
            assert(seq![spec_digit(0)] + Seq::<char>::empty() =~= spec_digits(0));
        }
    }
    let mut m = n;
    while m > 0
        invariant
            forall|j: int| 0 <= j < digits@.len() ==> digits@[j] < 10,
            m > 0 ==> spec_digits(n as nat) == spec_digits(m as nat) + rev_chars(digits@),
            m == 0 ==> spec_digits(n as nat) == rev_chars(digits@),
        decreases m,
    {
        let ghost digits0 = digits@;
        let ghost m0 = m as nat;
        let d = (m % 10) as u8;
        digits.push(d);
        proof {
            assert(m / 10 < m) by (nonlinear_arith)
                requires
                    m >= 1,
            ;
            assert(digits@.last() == d && digits@.drop_last() =~= digits0);
            assert(rev_chars(digits@) == seq![spec_digit(d as nat)] + rev_chars(digits0));
            if m0 >= 10 {
                assert(spec_digits(m0) == spec_digits(m0 / 10).push(spec_digit(m0 % 10)));
                assert(spec_digits(m0 / 10).push(spec_digit(m0 % 10)) =~= spec_digits(m0 / 10)
                    + seq![spec_digit(m0 % 10)]);
                assert(spec_digits(m0 / 10) + seq![spec_digit(m0 % 10)] + rev_chars(digits0)
                    =~= spec_digits(m0 / 10) + (seq![spec_digit(m0 % 10)] + rev_chars(
                    digits0,
                )));
            } else {
                assert(spec_digits(m0) == seq![spec_digit(m0)]);
                assert(seq![spec_digit(m0)] + rev_chars(digits0) =~= seq![spec_digit(m0 % 10)]
                    + rev_chars(digits0));
            }
        }
        m = m / 10;
    }
    let k = digits.len();
    let mut i: usize = 0;
    proof {
        lemma_rev_chars_len(digits@);
    }
    while i < k
        invariant
            k == digits@.len(),
            forall|j: int| 0 <= j < digits@.len() ==> digits@[j] < 10,
            i <= k,
            rev_chars(digits@).len() == k,
            s@ == old(s)@ + rev_chars(digits@).subrange(0, i as int),
        decreases k - i,
    {
        let d = digits[k - 1 - i];
        let ghost s0 = s@;
        s.append(digit_str(d));
        i = i + 1;
        proof {
            lemma_rev_chars_index(digits@, i as int - 1);
            assert(rev_chars(digits@).subrange(0, i as int) =~= rev_chars(digits@).subrange(
                0,
                i as int - 1,
            ) + seq![rev_chars(digits@)[i as int - 1]]);
            assert(s@ =~= old(s)@ + rev_chars(digits@).subrange(0, i as int));
        }
    }
    proof {
        assert(rev_chars(digits@).subrange(0, k as int) =~= rev_chars(digits@));
    }
}

/// Append one signed coordinate in milli-units.
fn push_coord(s: &mut String, x: i128)
    requires
        x > i128::MIN,
    ensures
        final(s)@ == old(s)@ + spec_int_str(x as int),
{
    proof {
        reveal_strlit("-");
    }
    if x < 0 {
        s.append("-");
        let ghost s1 = s@;
        push_u128(s, (-x) as u128);
        proof {
            assert("-"@ =~= seq!['-']);
            assert(s@ =~= old(s)@ + (seq!['-'] + spec_digits((-(x as int)) as nat)));
        }
    } else {
        push_u128(s, x as u128);
    }
}

/// The three coordinates of a position as text, space-separated, in
/// milli-units, each in decimal.
pub fn get_coord(v: &Vec3) -> (r: String)
    requires
        v.wf(),
    ensures
        r@ == spec_coord_str(v@.x, v@.y, v@.z),
{
    proof {
        reveal_strlit(" ");
    }
    let mut s = String::new();
    push_coord(&mut s, v.x);
    s.append(" ");
    push_coord(&mut s, v.y);
    s.append(" ");
    push_coord(&mut s, v.z);
    proof {
        assert(" "@ =~= seq![' ']);
        assert(s@ =~= spec_coord_str(v@.x, v@.y, v@.z));
    }
    s
}

} // verus!
