//! Small character-level utilities shared by the transformations and the
//! command parser: appending a single character to a `String`, and exact
//! string comparison.

use vstd::prelude::*;

verus! {

/// Relies on String::push: appends exactly the given character.
#[verifier::external_body]
pub(crate) fn push_char(s: &mut String, c: char)
    ensures
        final(s)@ == old(s)@.push(c),
{
    s.push(c)
}

/// Character-for-character string equality, decided without any
/// assumption about the contents of either side.
pub fn str_eq(a: &str, b: &str) -> (r: bool)
    ensures
        r == (a@ == b@),
{
    let na: usize = a.unicode_len();
    let nb: usize = b.unicode_len();
    if na != nb {
        return false;
    }
    let mut i: usize = 0;
    while i < na
        invariant
            i <= na,
            na == a@.len(),
            na == b@.len(),
            forall|j: int| 0 <= j < i ==> a@[j] == b@[j],
        decreases na - i,
    {
        if a.get_char(i) != b.get_char(i) {
            return false;
        }
        i = i + 1;
    }
    proof {
        assert(a@ =~= b@);
    }
    true
}

/// The character for one decimal digit.
pub open spec fn dec_digit(d: nat) -> char {
    if d == 0 {
        '0'
    } else if d == 1 {
        '1'
    } else if d == 2 {
        '2'
    } else if d == 3 {
        '3'
    } else if d == 4 {
        '4'
    } else if d == 5 {
        '5'
    } else if d == 6 {
        '6'
    } else if d == 7 {
        '7'
    } else if d == 8 {
        '8'
    } else {
        '9'
    }
}

/// The decimal rendering of a number, most significant digit first, with
/// no leading zero except for the number zero itself.
pub open spec fn dec_of(n: nat) -> Seq<char>
    decreases n,
{
    if n < 10 {
        seq![dec_digit(n)]
    } else {
        dec_of(n / 10).push(dec_digit(n % 10))
    }
}

fn digit_char(d: usize) -> (c: char)
    requires
        d < 10,
    ensures
        c == dec_digit(d as nat),
{
    if d == 0 {
        '0'
    } else if d == 1 {
        '1'
    } else if d == 2 {
        '2'
    } else if d == 3 {
        '3'
    } else if d == 4 {
        '4'
    } else if d == 5 {
        '5'
    } else if d == 6 {
        '6'
    } else if d == 7 {
        '7'
    } else if d == 8 {
        '8'
    } else {
        '9'
    }
}

/// Renders a number in decimal.
pub fn usize_to_string(n: usize) -> (r: String)
    ensures
        r@ == dec_of(n as nat),
{
    let mut digits: Vec<char> = Vec::new();
    let mut m: usize = n;
    while m >= 10
        invariant
            dec_of(n as nat) == dec_of(m as nat) + digits@.reverse(),
        decreases m,
    {
        let d = digit_char(m % 10);
        proof {
            let before = digits@;
            assert(before.push(dec_digit(m as nat % 10)).reverse() =~= seq![
                dec_digit(m as nat % 10),
            ] + before.reverse());
            assert(dec_of(m as nat) == dec_of(m as nat / 10).push(dec_digit(m as nat % 10)));
            assert(dec_of(m as nat / 10).push(dec_digit(m as nat % 10)) + before.reverse()
                =~= dec_of(m as nat / 10) + (seq![dec_digit(m as nat % 10)] + before.reverse()));
        }
        digits.push(d);
        m = m / 10;
    }
    let d = digit_char(m);
    proof {
        let before = digits@;
        assert(before.push(dec_digit(m as nat)).reverse() =~= seq![
            dec_digit(m as nat),
        ] + before.reverse());
        assert(dec_of(m as nat) == seq![dec_digit(m as nat)]);
        assert(dec_of(m as nat) + before.reverse() =~= before.push(dec_digit(m as nat)).reverse());
    }
    digits.push(d);
    let k: usize = digits.len();
    let mut out = String::new();
    let mut j: usize = 0;
    while j < k
        invariant
            j <= k,
            k == digits@.len(),
            dec_of(n as nat) == digits@.reverse(),
            out@ == digits@.reverse().subrange(0, j as int),
        decreases k - j,
    {
        push_char(&mut out, digits[k - 1 - j]);
        proof {
            assert(digits@.reverse()[j as int] == digits@[k - 1 - j]);
            assert(digits@.reverse().subrange(0, j + 1) =~= digits@.reverse().subrange(
                0,
                j as int,
            ).push(digits@.reverse()[j as int]));
        }
        j = j + 1;
    }
    proof {
        assert(digits@.reverse().subrange(0, k as int) =~= digits@.reverse());
    }
    out
}

} // verus!
