//! Small verified string helpers: character-exact equality, decimal
//! rendering of counters, and the one trusted append primitive they rest on.

use vstd::prelude::*;
use vstd::string::StrSliceExecFns;

verus! {

/// Relies on String::push: appends exactly the given character.
#[verifier::external_body]
pub fn string_push_char(s: &mut String, c: char)
    ensures
        final(s)@ == old(s)@.push(c),
{
    s.push(c);
}

/// Character-for-character equality of two string slices.
pub fn str_eq(a: &str, b: &str) -> (r: bool)
    ensures
        r == (a@ == b@),
{
    let la = a.unicode_len();
    let lb = b.unicode_len();
    if la != lb {
        return false;
    }
    let mut i: usize = 0;
    while i < la
        invariant
            la == a@.len(),
            la == b@.len(),
            i <= la,
            forall|j: int| 0 <= j < i ==> a@[j] == b@[j],
        decreases la - i,
    {
        if a.get_char(i) != b.get_char(i) {
            return false;
        }
        i += 1;
    }
    proof {
        assert(a@ =~= b@);
    }
    true
}

/// The character that writes a single decimal digit.
pub open spec fn dec_digit(d: int) -> char {
    if d == 0 {
        '0'
    } else if d == 1 {
        '1'
    } else if d == 2 {
        '2'
    } else if d == 3 {
        '3'
    } else if d == 4 {
        '4'
    } else if d == 5 {
        '5'
    } else if d == 6 {
        '6'
    } else if d == 7 {
        '7'
    } else if d == 8 {
        '8'
    } else {
        '9'
    }
}

/// The usual decimal notation of a non-negative integer, most significant
/// digit first.
pub open spec fn dec_str(n: int) -> Seq<char>
    decreases n,
{
    if n < 0 {
        Seq::empty()
    } else if n < 10 {
        seq![dec_digit(n)]
    } else {
        dec_str(n / 10).push(dec_digit(n % 10))
    }
}

/// Executable form of `dec_digit`.
pub fn digit_char(d: u64) -> (c: char)
    requires
        d < 10,
    ensures
        c == dec_digit(d as int),
{
    if d == 0 {
        '0'
    } else if d == 1 {
        '1'
    } else if d == 2 {
        '2'
    } else if d == 3 {
        '3'
    } else if d == 4 {
        '4'
    } else if d == 5 {
        '5'
    } else if d == 6 {
        '6'
    } else if d == 7 {
        '7'
    } else if d == 8 {
        '8'
    } else {
        '9'
    }
}

/// Renders a counter in decimal.
pub fn u64_to_string(n: u64) -> (s: String)
    ensures
        s@ == dec_str(n as int),
{
    let mut digits: Vec<char> = Vec::new();
    let c0 = digit_char(n % 10);
    digits.insert(0, c0);
    let mut m: u64 = n / 10;
    proof {
        assert(digits@ =~= seq![c0]);
        if n < 10 {
            assert(dec_str(n as int) == digits@);
        } else {
            assert(dec_str(n as int) == dec_str(m as int).push(c0));
            assert(dec_str(m as int).push(c0) =~= dec_str(m as int) + digits@);
        }
    }
    while m > 0
        invariant
            if m == 0 {
                dec_str(n as int) == digits@
            } else {
                dec_str(n as int) == dec_str(m as int) + digits@
            },
        decreases m,
    {
        let c = digit_char(m % 10);
        let ghost pre = digits@;
        digits.insert(0, c);
        proof {
            assert(digits@ =~= seq![c] + pre);
        }
        proof {
            if m < 10 {
                assert(dec_str(m as int) =~= seq![c]);
                assert(dec_str(n as int) =~= digits@);
            } else {
                assert(dec_str(m as int) == dec_str(m as int / 10).push(c));
                assert(dec_str(m as int / 10).push(c) + pre =~= dec_str(m as int / 10) + digits@);
            }
        }
        m = m / 10;
    }
    let mut s = String::new();
    let mut i: usize = 0;
    while i < digits.len()
        invariant
            i <= digits@.len(),
            s@ == digits@.take(i as int),
        decreases digits@.len() - i,
    {
        let c = digits[i];
        string_push_char(&mut s, c);
        proof {
            assert(digits@.take(i + 1 as int) =~= digits@.take(i as int).push(digits@[i as int]));
        }
        i += 1;
    }
    proof {
        assert(digits@.take(digits@.len() as int) =~= digits@);
    }
    s
}

} // verus!
